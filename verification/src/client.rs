//! The decisions of a client: how a long read is split into requests a
//! device accepts, what each request looks like, and what a response
//! holds. Sending and waiting are left to the caller.

use vstd::prelude::*;

use crate::constants::{MAX_READ_COILS, MAX_READ_REGISTERS};
use crate::device_limits::request_count;
use crate::codec::{parse_read_response, parsed_read_response, unpack_bits, unpacked_bits};
use crate::error::{ModbusError, ModbusResult};
use crate::pdu::{five_byte_request, is_exception_code, ModbusPdu, PduBuilder};

pub mod utils;

verus! {

/// Size of the next request where `remaining` items are still to be read
/// and one request may ask for `max`.
pub open spec fn chunk_size(remaining: u16, max: u16) -> u16 {
    if remaining <= max {
        remaining
    } else {
        max
    }
}

/// The address after `count` items from `address` on; it stops at the
/// last address instead of wrapping.
pub open spec fn advanced(address: u16, count: u16) -> u16 {
    if address + count > 0xFFFF {
        0xFFFFu16
    } else {
        (address + count) as u16
    }
}

/// The requests, each an address and a count, that read `quantity` items
/// from `address` on with at most `max` items in one request.
pub open spec fn chunk_plan(address: u16, quantity: u16, max: u16) -> Seq<(u16, u16)>
    decreases quantity,
{
    if quantity == 0 || max == 0 {
        Seq::empty()
    } else {
        let count = chunk_size(quantity, max);
        seq![(address, count)] + chunk_plan(
            advanced(address, count),
            (quantity - count) as u16,
            max,
        )
    }
}

/// The first request of a plan reads the first chunk, and the rest of
/// the plan is the plan for what is left behind it.
pub proof fn lemma_chunk_plan_unfolds(address: u16, quantity: u16, max: u16)
    requires
        quantity > 0,
        max > 0,
    ensures
        chunk_plan(address, quantity, max).len() > 0,
        chunk_plan(address, quantity, max)[0] == (address, chunk_size(quantity, max)),
        chunk_plan(address, quantity, max).drop_first() == chunk_plan(
            advanced(address, chunk_size(quantity, max)),
            (quantity - chunk_size(quantity, max)) as u16,
            max,
        ),
{
    let count = chunk_size(quantity, max);
    let rest = chunk_plan(advanced(address, count), (quantity - count) as u16, max);
    assert(chunk_plan(address, quantity, max).drop_first() =~= rest);
}

/// Sum of the counts of a plan.
pub open spec fn planned_items(plan: Seq<(u16, u16)>) -> int
    decreases plan.len(),
{
    if plan.len() == 0 {
        0
    } else {
        plan[0].1 + planned_items(plan.drop_first())
    }
}

/// A plan has as many requests as the device limits count, every request
/// asks for at least one item and at most `max`, request `i` starts `i`
/// full requests behind the first address (or at the last address, where
/// that would be past it), and together they ask for `quantity` items.
pub proof fn lemma_chunk_plan(address: u16, quantity: u16, max: u16)
    requires
        max > 0,
    ensures
        chunk_plan(address, quantity, max).len() == request_count(quantity as int, max as int),
        planned_items(chunk_plan(address, quantity, max)) == quantity,
        forall|i: int|
            0 <= i < chunk_plan(address, quantity, max).len() ==> {
                let request = #[trigger] chunk_plan(address, quantity, max)[i];
                &&& 1 <= request.1 <= max
                &&& request.0 == if address + i * max > 0xFFFF {
                    0xFFFF
                } else {
                    address + i * max
                }
                &&& request.1 == if quantity - i * max > max {
                    max as int
                } else {
                    quantity - i * max
                }
            },
    decreases quantity,
{
    let plan = chunk_plan(address, quantity, max);
    if quantity != 0 {
        let count = chunk_size(quantity, max);
        let next = advanced(address, count);
        let left = (quantity - count) as u16;
        let rest = chunk_plan(next, left, max);
        lemma_chunk_plan(next, left, max);
        assert(plan.drop_first() =~= rest);
        let q = quantity as int;
        let m = max as int;
        if left == 0 {
            assert((q + m - 1) / m == 1) by (nonlinear_arith)
                requires
                    0 < q <= m,
            ;
        } else {
            assert((q + m - 1) / m == (q - m + m - 1) / m + 1) by (nonlinear_arith)
                requires
                    m > 0,
            ;
        }
        assert forall|i: int| 0 <= i < plan.len() implies ({
            let request = #[trigger] plan[i];
            &&& 1 <= request.1 <= max
            &&& request.0 == if address + i * max > 0xFFFF {
                0xFFFF
            } else {
                address + i * max
            }
            &&& request.1 == if quantity - i * max > max {
                max as int
            } else {
                quantity - i * max
            }
        }) by {
            if i > 0 {
                assert(plan[i] == rest[i - 1]);
                assert((i - 1) * m == i * m - m) by (nonlinear_arith);
                assert(i * m >= m) by (nonlinear_arith)
                    requires
                        i >= 1,
                        m > 0,
                ;
            } else {
                assert(i * m == 0) by (nonlinear_arith)
                    requires
                        i == 0,
                ;
            }
        }
    }
}

/// What the caller of a chunked read does next.
#[derive(Debug)]
pub enum ChunkAction<T> {
    /// Wait `delay_ms` milliseconds where that is not 0, then read `count`
    /// items at `address` and hand the outcome to `on_response`.
    Read { delay_ms: u64, address: u16, count: u16 },
    /// Everything is read: `data` holds the items in address order.
    Complete { data: Vec<T> },
    /// A request failed: the read as a whole fails with this error, and
    /// no further request is made.
    Abort { error: ModbusError },
}

/// A read of many items in progress.
#[derive(Debug)]
pub struct ChunkedRead<T> {
    next_address: u16,
    remaining: u16,
    max_per_request: u16,
    inter_request_delay_ms: u64,
    collected: Vec<T>,
}

/// The state of a chunked read.
pub struct ChunkedReadView<T> {
    /// Where the next request starts.
    pub next_address: u16,
    /// Number of items not read yet, those of the request under way
    /// included.
    pub remaining: u16,
    /// Most items in one request.
    pub max_per_request: u16,
    /// Pause between two requests, in milliseconds.
    pub inter_request_delay_ms: u64,
    /// The items read so far, in address order.
    pub collected: Seq<T>,
}

impl<T> View for ChunkedRead<T> {
    type V = ChunkedReadView<T>;

    closed spec fn view(&self) -> ChunkedReadView<T> {
        ChunkedReadView {
            next_address: self.next_address,
            remaining: self.remaining,
            max_per_request: self.max_per_request,
            inter_request_delay_ms: self.inter_request_delay_ms,
            collected: self.collected@,
        }
    }
}

impl<T> ChunkedRead<T> {
    /// Begins a read of `quantity` items from `address` on, with at most
    /// `max_per_request` items in one request and a pause of
    /// `inter_request_delay_ms` between requests. Where nothing is asked
    /// for, the read is complete at once and no request is made.
    pub fn start(address: u16, quantity: u16, max_per_request: u16, inter_request_delay_ms: u64)
        -> (r: (Self, ChunkAction<T>))
        ensures
            r.0@ == (ChunkedReadView {
                next_address: address,
                remaining: quantity,
                max_per_request,
                inter_request_delay_ms,
                collected: Seq::<T>::empty(),
            }),
            quantity == 0 ==> r.1 is Complete && r.1->data@ == Seq::<T>::empty(),
            quantity > 0 ==> r.1 == (ChunkAction::<T>::Read {
                delay_ms: 0,
                address,
                count: chunk_size(quantity, max_per_request),
            }),
    {
        let state = ChunkedRead {
            next_address: address,
            remaining: quantity,
            max_per_request,
            inter_request_delay_ms,
            collected: Vec::new(),
        };
        if quantity == 0 {
            (state, ChunkAction::Complete { data: Vec::new() })
        } else {
            let count = if quantity <= max_per_request {
                quantity
            } else {
                max_per_request
            };
            (state, ChunkAction::Read { delay_ms: 0, address, count })
        }
    }

    /// Takes the outcome of the request that was asked for last and says
    /// what comes next.
    ///
    /// A failure aborts the read: the error is handed on unchanged, what
    /// was read so far is dropped, and nothing remains to be read. A
    /// success appends the items, moves the address on by the size of the
    /// request and either completes the read or asks for the next
    /// request, after the pause where one is set.
    pub fn on_response(self, outcome: ModbusResult<Vec<T>>) -> (r: (Self, ChunkAction<T>))
        ensures
            r.0@.max_per_request == self@.max_per_request,
            r.0@.inter_request_delay_ms == self@.inter_request_delay_ms,
            outcome is Err ==> {
                &&& r.1 == (ChunkAction::<T>::Abort { error: outcome->Err_0 })
                &&& r.0@.remaining == 0
                &&& r.0@.next_address == self@.next_address
                &&& r.0@.collected == Seq::<T>::empty()
            },
            outcome is Ok ==> {
                let count = chunk_size(self@.remaining, self@.max_per_request);
                let left = (self@.remaining - count) as u16;
                let items = self@.collected + outcome->Ok_0@;
                &&& r.0@.next_address == advanced(self@.next_address, count)
                &&& r.0@.remaining == left
                &&& left == 0 ==> r.1 is Complete && r.1->data@ == items && r.0@.collected
                    == Seq::<T>::empty()
                &&& left > 0 ==> r.0@.collected == items && r.1 == (ChunkAction::<T>::Read {
                    delay_ms: self@.inter_request_delay_ms,
                    address: advanced(self@.next_address, count),
                    count: chunk_size(left, self@.max_per_request),
                })
            },
    {
        let mut state = self;
        match outcome {
            Err(error) => {
                state.remaining = 0;
                state.collected = Vec::new();
                (state, ChunkAction::Abort { error })
            },
            Ok(chunk) => {
                let mut chunk = chunk;
                let count = if state.remaining <= state.max_per_request {
                    state.remaining
                } else {
                    state.max_per_request
                };
                state.collected.append(&mut chunk);
                state.next_address = if state.next_address > 0xFFFF - count {
                    0xFFFF
                } else {
                    state.next_address + count
                };
                state.remaining = state.remaining - count;
                if state.remaining == 0 {
                    let mut data: Vec<T> = Vec::new();
                    data.append(&mut state.collected);
                    assert(data@ =~= self@.collected + outcome->Ok_0@);
                    (state, ChunkAction::Complete { data })
                } else {
                    let next_count = if state.remaining <= state.max_per_request {
                        state.remaining
                    } else {
                        state.max_per_request
                    };
                    let action = ChunkAction::Read {
                        delay_ms: state.inter_request_delay_ms,
                        address: state.next_address,
                        count: next_count,
                    };
                    (state, action)
                }
            },
        }
    }
}

/// Most items that one read request of function code `fc` may ask for.
pub open spec fn read_limit(fc: u8) -> usize {
    if fc == 0x01 || fc == 0x02 {
        MAX_READ_COILS
    } else {
        MAX_READ_REGISTERS
    }
}

/// The exception that an exception response reports: the function code
/// less its exception bit, and the exception code, 0 where the response
/// has none.
pub open spec fn reported_exception(pdu: Seq<u8>) -> ModbusError {
    ModbusError::Exception {
        function: (pdu[0] - 0x80) as u8,
        code: if pdu.len() > 1 {
            pdu[1]
        } else {
            0
        },
    }
}

/// The request PDU of a single read (function codes 1 to 4). A request
/// for nothing, or for more than the protocol allows in one request, is
/// refused before anything is sent.
pub fn read_request(function_code: u8, address: u16, quantity: u16) -> (r: ModbusResult<
    ModbusPdu,
>)
    ensures
        !(1 <= function_code <= 4) ==> r == Err::<ModbusPdu, ModbusError>(
            ModbusError::InvalidFunction { code: function_code },
        ),
        1 <= function_code <= 4 && !(1 <= quantity <= read_limit(function_code)) ==> r == Err::<
            ModbusPdu,
            ModbusError,
        >(
            ModbusError::InvalidQuantity {
                quantity: quantity as usize,
                max: read_limit(function_code),
            },
        ),
        1 <= function_code <= 4 && 1 <= quantity <= read_limit(function_code) ==> r is Ok
            && r->Ok_0@ == five_byte_request(function_code, address, quantity),
{
    if function_code < 0x01 || function_code > 0x04 {
        return Err(ModbusError::InvalidFunction { code: function_code });
    }
    let max: usize = if function_code <= 0x02 {
        MAX_READ_COILS
    } else {
        MAX_READ_REGISTERS
    };
    if quantity == 0 {
        return Err(ModbusError::InvalidQuantity { quantity: 0, max });
    }
    PduBuilder::build_read_request(function_code, address, quantity)
}

/// Refuses an exception response, with the exception it reports.
pub fn check_exception(pdu: &ModbusPdu) -> (r: ModbusResult<()>)
    ensures
        is_exception_response(pdu@) ==> r == Err::<(), ModbusError>(reported_exception(pdu@)),
        !is_exception_response(pdu@) ==> r is Ok,
{
    match pdu.function_code() {
        Some(fc) => {
            if fc >= 0x80 {
                let code = match pdu.exception_code() {
                    Some(code) => code,
                    None => 0,
                };
                Err(ModbusError::Exception { function: fc - 0x80, code })
            } else {
                Ok(())
            }
        },
        None => Ok(()),
    }
}

/// Whether a PDU is an exception response.
pub open spec fn is_exception_response(pdu: Seq<u8>) -> bool {
    pdu.len() > 0 && is_exception_code(pdu[0])
}

/// The registers that the response to a register read holds (function
/// codes 3 and 4). An exception response gives its exception; otherwise
/// the response is read as `parse_read_response` reads it.
pub fn read_registers_response(pdu: &ModbusPdu, function_code: u8) -> (r: ModbusResult<
    Vec<u16>,
>)
    ensures
        is_exception_response(pdu@) ==> r == Err::<Vec<u16>, ModbusError>(
            reported_exception(pdu@),
        ),
        !is_exception_response(pdu@) ==> match parsed_read_response(pdu@, function_code) {
            Ok(registers) => r is Ok && r->Ok_0@ == registers,
            Err(e) => r == Err::<Vec<u16>, ModbusError>(e),
        },
{
    match check_exception(pdu) {
        Err(e) => Err(e),
        Ok(()) => parse_read_response(pdu, function_code, 0),
    }
}

/// The bits that the response to a coil or discrete input read holds
/// (function codes 1 and 2): the first `quantity` bits of its data, or
/// as many as it has. An exception response gives its exception.
pub fn read_bits_response(pdu: &ModbusPdu, function_code: u8, quantity: u16) -> (r: ModbusResult<
    Vec<bool>,
>)
    ensures
        is_exception_response(pdu@) ==> r == Err::<Vec<bool>, ModbusError>(
            reported_exception(pdu@),
        ),
        !is_exception_response(pdu@) ==> match parsed_read_response(pdu@, function_code) {
            Ok(bytes) => r is Ok && r->Ok_0@ == unpacked_bits(bytes, quantity as int),
            Err(e) => r == Err::<Vec<bool>, ModbusError>(e),
        },
{
    match check_exception(pdu) {
        Err(e) => Err(e),
        Ok(()) => match parse_read_response(pdu, function_code, quantity) {
            Err(e) => Err(e),
            Ok(bytes) => Ok(unpack_bits(bytes.as_slice(), quantity as usize)),
        },
    }
}

} // verus!
