//! Per-device ceilings on the size of one request.
//!
//! The protocol allows 125 registers or 2000 coils in one read and 123
//! registers or 1968 coils in one write. Some devices take less; a
//! `DeviceLimits` says how much, and how long to pause between requests.

use vstd::prelude::*;

verus! {

/// Registers in one read, by the protocol.
pub const DEFAULT_MAX_READ_REGISTERS: u16 = 125;

/// Registers in one write, by the protocol.
pub const DEFAULT_MAX_WRITE_REGISTERS: u16 = 123;

/// Coils in one read, by the protocol.
pub const DEFAULT_MAX_READ_COILS: u16 = 2000;

/// Coils in one write, by the protocol.
pub const DEFAULT_MAX_WRITE_COILS: u16 = 1968;

/// Pause between requests, in milliseconds.
pub const DEFAULT_INTER_REQUEST_DELAY_MS: u64 = 0;

/// The ceilings of one device.
#[derive(Debug, Clone, Copy, PartialEq, Eq, Structural)]
pub struct DeviceLimits {
    /// Most registers in one read request.
    pub max_read_registers: u16,
    /// Most registers in one write request.
    pub max_write_registers: u16,
    /// Most coils in one read request.
    pub max_read_coils: u16,
    /// Most coils in one write request.
    pub max_write_coils: u16,
    /// Least pause between two requests, in milliseconds.
    pub inter_request_delay_ms: u64,
}

/// The limits of the protocol itself, with no pause.
pub open spec fn protocol_limits() -> DeviceLimits {
    DeviceLimits {
        max_read_registers: DEFAULT_MAX_READ_REGISTERS,
        max_write_registers: DEFAULT_MAX_WRITE_REGISTERS,
        max_read_coils: DEFAULT_MAX_READ_COILS,
        max_write_coils: DEFAULT_MAX_WRITE_COILS,
        inter_request_delay_ms: DEFAULT_INTER_REQUEST_DELAY_MS,
    }
}

/// Number of requests of at most `max` items that `total` items take:
/// `total / max` rounded up.
pub open spec fn request_count(total: int, max: int) -> int {
    if total <= 0 {
        0
    } else {
        (total + max - 1) / max
    }
}

/// `request_count` is the least number of requests that hold `total`
/// items.
pub proof fn lemma_request_count_is_least(total: int, max: int)
    requires
        total > 0,
        max > 0,
    ensures
        (request_count(total, max) - 1) * max < total <= request_count(total, max) * max,
        request_count(total, max) >= 1,
{
    let n = (total + max - 1) / max;
    assert((total + max - 1) == max * n + (total + max - 1) % max && 0 <= (total + max - 1) % max
        < max) by (nonlinear_arith)
        requires
            max > 0,
            n == (total + max - 1) / max,
    ;
    assert((n - 1) * max == n * max - max) by (nonlinear_arith);
    assert(n * max == max * n) by (nonlinear_arith);
    if n < 1 {
        assert(n * max <= 0) by (nonlinear_arith)
            requires
                n < 1,
                max > 0,
        ;
    }
}

impl Default for DeviceLimits {
    fn default() -> (limits: Self)
        ensures
            limits == protocol_limits(),
    {
        DeviceLimits {
            max_read_registers: DEFAULT_MAX_READ_REGISTERS,
            max_write_registers: DEFAULT_MAX_WRITE_REGISTERS,
            max_read_coils: DEFAULT_MAX_READ_COILS,
            max_write_coils: DEFAULT_MAX_WRITE_COILS,
            inter_request_delay_ms: DEFAULT_INTER_REQUEST_DELAY_MS,
        }
    }
}

/// `total / max` rounded up, for a positive `max`.
fn div_round_up(total: u16, max: u16) -> (n: u16)
    requires
        max > 0,
    ensures
        n == request_count(total as int, max as int),
{
    if total == 0 {
        return 0;
    }
    let quotient = total / max;
    proof {
        let t = total as int;
        let m = max as int;
        assert(t == m * (t / m) + t % m && 0 <= t % m < m) by (nonlinear_arith)
            requires
                m > 0,
        ;
        if t % m != 0 {
            assert(2 * (t / m) <= m * (t / m)) by (nonlinear_arith)
                requires
                    m >= 2,
                    t / m >= 0,
            ;
        }
    }
    let n = if total % max == 0 {
        quotient
    } else {
        quotient + 1
    };
    proof {
        let t = total as int;
        let m = max as int;
        assert(t == m * (t / m) + t % m && 0 <= t % m < m) by (nonlinear_arith)
            requires
                m > 0,
        ;
        lemma_request_count_is_least(t, m);
        let c = request_count(t, m);
        let k = n as int;
        assert((k - 1) * m < t <= k * m) by (nonlinear_arith)
            requires
                t == m * (t / m) + t % m,
                0 <= t % m < m,
                k == if t % m == 0 {
                    t / m
                } else {
                    t / m + 1
                },
        ;
        if c < k {
            assert(c * m <= (k - 1) * m) by (nonlinear_arith)
                requires
                    c <= k - 1,
                    m > 0,
            ;
        }
        if k < c {
            assert(k * m <= (c - 1) * m) by (nonlinear_arith)
                requires
                    k <= c - 1,
                    m > 0,
            ;
        }
    }
    n
}

impl DeviceLimits {
    /// The limits of the protocol itself.
    pub fn new() -> (limits: Self)
        ensures
            limits == protocol_limits(),
    {
        DeviceLimits {
            max_read_registers: DEFAULT_MAX_READ_REGISTERS,
            max_write_registers: DEFAULT_MAX_WRITE_REGISTERS,
            max_read_coils: DEFAULT_MAX_READ_COILS,
            max_write_coils: DEFAULT_MAX_WRITE_COILS,
            inter_request_delay_ms: DEFAULT_INTER_REQUEST_DELAY_MS,
        }
    }

    /// Limits for an old or slow device: 50 registers and 500 coils in
    /// one request, 10 ms between requests.
    pub fn conservative() -> (limits: Self)
        ensures
            limits == (DeviceLimits {
                max_read_registers: 50,
                max_write_registers: 50,
                max_read_coils: 500,
                max_write_coils: 500,
                inter_request_delay_ms: 10,
            }),
    {
        DeviceLimits {
            max_read_registers: 50,
            max_write_registers: 50,
            max_read_coils: 500,
            max_write_coils: 500,
            inter_request_delay_ms: 10,
        }
    }

    /// The same limits with another ceiling on registers in one read.
    pub fn with_max_read_registers(self, count: u16) -> (limits: Self)
        ensures
            limits == (DeviceLimits { max_read_registers: count, ..self }),
    {
        DeviceLimits { max_read_registers: count, ..self }
    }

    /// The same limits with another ceiling on registers in one write.
    pub fn with_max_write_registers(self, count: u16) -> (limits: Self)
        ensures
            limits == (DeviceLimits { max_write_registers: count, ..self }),
    {
        DeviceLimits { max_write_registers: count, ..self }
    }

    /// The same limits with another ceiling on coils in one read.
    pub fn with_max_read_coils(self, count: u16) -> (limits: Self)
        ensures
            limits == (DeviceLimits { max_read_coils: count, ..self }),
    {
        DeviceLimits { max_read_coils: count, ..self }
    }

    /// The same limits with another ceiling on coils in one write.
    pub fn with_max_write_coils(self, count: u16) -> (limits: Self)
        ensures
            limits == (DeviceLimits { max_write_coils: count, ..self }),
    {
        DeviceLimits { max_write_coils: count, ..self }
    }

    /// The same limits with another pause between requests.
    pub fn with_inter_request_delay_ms(self, delay_ms: u64) -> (limits: Self)
        ensures
            limits == (DeviceLimits { inter_request_delay_ms: delay_ms, ..self }),
    {
        DeviceLimits { inter_request_delay_ms: delay_ms, ..self }
    }

    /// Number of read requests that `total_registers` registers take.
    /// None are needed for no register; otherwise the ceiling must not
    /// be 0.
    pub fn read_request_count(&self, total_registers: u16) -> (n: u16)
        requires
            total_registers == 0 || self.max_read_registers > 0,
        ensures
            n == request_count(total_registers as int, self.max_read_registers as int),
    {
        if total_registers == 0 {
            return 0;
        }
        div_round_up(total_registers, self.max_read_registers)
    }

    /// Number of write requests that `total_registers` registers take.
    /// None are needed for no register; otherwise the ceiling must not
    /// be 0.
    pub fn write_request_count(&self, total_registers: u16) -> (n: u16)
        requires
            total_registers == 0 || self.max_write_registers > 0,
        ensures
            n == request_count(total_registers as int, self.max_write_registers as int),
    {
        if total_registers == 0 {
            return 0;
        }
        div_round_up(total_registers, self.max_write_registers)
    }

    /// Whether one read request may ask for so many registers.
    pub fn is_read_within_limits(&self, register_count: u16) -> (b: bool)
        ensures
            b == (register_count <= self.max_read_registers),
    {
        register_count <= self.max_read_registers
    }

    /// Whether one write request may carry so many registers.
    pub fn is_write_within_limits(&self, register_count: u16) -> (b: bool)
        ensures
            b == (register_count <= self.max_write_registers),
    {
        register_count <= self.max_write_registers
    }

    /// Whether one read request may ask for so many coils.
    pub fn is_coil_read_within_limits(&self, coil_count: u16) -> (b: bool)
        ensures
            b == (coil_count <= self.max_read_coils),
    {
        coil_count <= self.max_read_coils
    }

    /// Whether one write request may carry so many coils.
    pub fn is_coil_write_within_limits(&self, coil_count: u16) -> (b: bool)
        ensures
            b == (coil_count <= self.max_write_coils),
    {
        coil_count <= self.max_write_coils
    }
}

} // verus!
