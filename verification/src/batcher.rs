//! Batching of write commands.
//!
//! Commands wait in groups, one group for each pair of slave id and
//! function code, in the order in which they came. They are released
//! together once a time window has passed or enough of them wait.

use std::collections::HashMap;
use std::time::{Duration, Instant};
use vstd::prelude::*;
use vstd::std_specs::iter::IteratorSpec;

use crate::bytes::ByteOrder;
use crate::codec::{data_type_of, registers_for_type};
use crate::value::ModbusValue;

verus! {

broadcast use vstd::std_specs::hash::group_hash_axioms;

/// Time window after which waiting commands are released, in
/// milliseconds.
pub const DEFAULT_BATCH_WINDOW_MS: u64 = 20;

/// Number of waiting commands at which they are released.
pub const DEFAULT_MAX_BATCH_SIZE: usize = 100;

/// One write waiting to be sent.
#[derive(Debug, Clone)]
pub struct BatchCommand {
    /// Identifier of the point that is written.
    pub point_id: u32,
    /// The value to write.
    pub value: ModbusValue,
    /// Slave id of the device.
    pub slave_id: u8,
    /// Function code of the write (5, 6, 15 or 16).
    pub function_code: u8,
    /// Address of the first register.
    pub register_address: u16,
    /// Tag of the data type, which decides how many registers the value
    /// takes.
    pub data_type: &'static str,
    /// Byte order for a value of more than one register.
    pub byte_order: ByteOrder,
}

/// Commands by group: the key is a slave id and a function code.
pub type Groups = Map<(u8, u8), Seq<BatchCommand>>;

/// The group that a command belongs to.
pub open spec fn command_key(command: BatchCommand) -> (u8, u8) {
    (command.slave_id, command.function_code)
}

/// The commands of a group; none where the group does not exist.
pub open spec fn group_of(groups: Groups, key: (u8, u8)) -> Seq<BatchCommand> {
    if groups.contains_key(key) {
        groups[key]
    } else {
        Seq::empty()
    }
}

/// The key with a given number, keys being numbered by slave id first.
pub open spec fn key_at(index: int) -> (u8, u8) {
    ((index / 256) as u8, (index % 256) as u8)
}

/// Number of commands in the groups whose key has a number below
/// `bound`.
pub open spec fn commands_below(groups: Groups, bound: nat) -> nat
    decreases bound,
{
    if bound == 0 {
        0
    } else {
        commands_below(groups, (bound - 1) as nat) + group_of(groups, key_at(bound - 1)).len()
    }
}

/// Number of commands in all groups together.
pub open spec fn total_commands(groups: Groups) -> nat {
    commands_below(groups, 0x1_0000)
}

/// Whether every group holds at least one command and only commands of
/// its own key.
pub open spec fn well_grouped(groups: Groups) -> bool {
    forall|key: (u8, u8)| #[trigger]
        groups.contains_key(key) ==> groups[key].len() > 0 && forall|i: int|
            0 <= i < groups[key].len() ==> command_key(#[trigger] groups[key][i]) == key
}

/// The groups after one more command has come.
pub open spec fn with_command(groups: Groups, command: BatchCommand) -> Groups {
    groups.insert(command_key(command), group_of(groups, command_key(command)).push(command))
}

/// No group holds no command.
pub proof fn lemma_total_of_none()
    ensures
        total_commands(Map::empty()) == 0,
{
    lemma_below_of_none(0x1_0000);
}

proof fn lemma_below_of_none(bound: nat)
    ensures
        commands_below(Map::empty(), bound) == 0,
    decreases bound,
{
    if bound > 0 {
        lemma_below_of_none((bound - 1) as nat);
    }
}

proof fn lemma_below_with_group(groups: Groups, key: (u8, u8), group: Seq<BatchCommand>, bound: nat)
    requires
        bound <= 0x1_0000,
    ensures
        commands_below(groups.insert(key, group), bound) == commands_below(groups, bound) + (if key.0
            * 256 + key.1 < bound {
            group.len() - group_of(groups, key).len()
        } else {
            0
        }),
    decreases bound,
{
    if bound > 0 {
        lemma_below_with_group(groups, key, group, (bound - 1) as nat);
        let k = key_at(bound - 1);
        assert(k == key <==> key.0 * 256 + key.1 == bound - 1);
    }
}

proof fn lemma_below_without_group(groups: Groups, key: (u8, u8), bound: nat)
    requires
        bound <= 0x1_0000,
    ensures
        commands_below(groups.remove(key), bound) == commands_below(groups, bound) - (if key.0 * 256
            + key.1 < bound {
            group_of(groups, key).len() as int
        } else {
            0
        }),
    decreases bound,
{
    if bound > 0 {
        lemma_below_without_group(groups, key, (bound - 1) as nat);
        let k = key_at(bound - 1);
        assert(k == key <==> key.0 * 256 + key.1 == bound - 1);
    }
}

/// One more command makes the total one greater, and leaves the groups
/// well grouped.
pub proof fn lemma_with_command(groups: Groups, command: BatchCommand)
    requires
        well_grouped(groups),
    ensures
        total_commands(with_command(groups, command)) == total_commands(groups) + 1,
        well_grouped(with_command(groups, command)),
{
    let key = command_key(command);
    let group = group_of(groups, key).push(command);
    lemma_below_with_group(groups, key, group, 0x1_0000);
    let after = with_command(groups, command);
    assert forall|k: (u8, u8)| #[trigger] after.contains_key(k) implies after[k].len() > 0
        && forall|i: int| 0 <= i < after[k].len() ==> command_key(#[trigger] after[k][i]) == k by {
        if k != key {
            assert(groups.contains_key(k));
        } else if groups.contains_key(key) {
            assert(groups[key].len() > 0);
        }
    }
}

/// The number of a key in a map keyed by numbers.
pub open spec fn key_number(key: (u8, u8)) -> u16 {
    (key.0 * 256 + key.1) as u16
}

/// The groups that a map keyed by key numbers holds.
spec fn groups_of(held: Map<u16, Vec<BatchCommand>>) -> Groups {
    Map::new(
        |key: (u8, u8)| held.contains_key(key_number(key)),
        |key: (u8, u8)| held[key_number(key)]@,
    )
}

fn number_of(key: &(u8, u8)) -> (n: u16)
    ensures
        n == key_number(*key),
{
    (key.0 as u16) * 256 + (key.1 as u16)
}

/// Commands by group, with their number.
#[derive(Debug)]
pub struct CommandGroups {
    held: HashMap<u16, Vec<BatchCommand>>,
    total: usize,
}

impl View for CommandGroups {
    type V = Groups;

    closed spec fn view(&self) -> Groups {
        groups_of(self.held@)
    }
}

impl CommandGroups {
    #[verifier::type_invariant]
    spec fn inv(&self) -> bool {
        &&& self.total == total_commands(self@)
        &&& well_grouped(self@)
    }

    /// No groups.
    pub fn new() -> (groups: Self)
        ensures
            groups@ == Map::<(u8, u8), Seq<BatchCommand>>::empty(),
            total_commands(groups@) == 0,
    {
        let held: HashMap<u16, Vec<BatchCommand>> = HashMap::new();
        proof {
            lemma_total_of_none();
            assert(groups_of(held@) =~= Map::<(u8, u8), Seq<BatchCommand>>::empty());
        }
        CommandGroups { held, total: 0 }
    }

    /// The same groups with one more command behind those of its group.
    pub fn with(self, command: BatchCommand) -> (groups: Self)
        requires
            total_commands(self@) < usize::MAX,
        ensures
            groups@ == with_command(self@, command),
            total_commands(groups@) == total_commands(self@) + 1,
    {
        proof {
            use_type_invariant(&self);
            lemma_with_command(self@, command);
        }
        let n = number_of(&(command.slave_id, command.function_code));
        let CommandGroups { held, total } = self;
        let mut held = held;
        let mut group = match held.remove(&n) {
            Some(group) => group,
            None => Vec::new(),
        };
        group.push(command);
        held.insert(n, group);
        assert(groups_of(held@) =~= with_command(self@, command));
        CommandGroups { held, total: total + 1 }
    }

    /// The commands of a group, in the order in which they came.
    pub fn get(&self, key: &(u8, u8)) -> (group: Option<&Vec<BatchCommand>>)
        ensures
            match group {
                Some(commands) => self@.contains_key(*key) && commands@ == self@[*key],
                None => !self@.contains_key(*key),
            },
    {
        let n = number_of(key);
        self.held.get(&n)
    }

    /// Whether there is a group of the key.
    pub fn contains_key(&self, key: &(u8, u8)) -> (b: bool)
        ensures
            b == self@.contains_key(*key),
    {
        let n = number_of(key);
        self.held.contains_key(&n)
    }

    /// Number of groups.
    pub fn len(&self) -> (n: usize)
        ensures
            self@.dom().finite(),
            n == self@.dom().len(),
    {
        proof {
            lemma_group_count(self.held@);
        }
        self.held.len()
    }

    /// Whether there is no group.
    pub fn is_empty(&self) -> (b: bool)
        ensures
            self@.dom().finite(),
            b == (self@.dom().len() == 0),
    {
        self.len() == 0
    }

    /// Takes a group out, with its commands in the order in which they
    /// came.
    pub fn remove(&mut self, key: &(u8, u8)) -> (group: Option<Vec<BatchCommand>>)
        ensures
            final(self)@ == old(self)@.remove(*key),
            match group {
                Some(commands) => old(self)@.contains_key(*key) && commands@ == old(self)@[*key],
                None => !old(self)@.contains_key(*key),
            },
    {
        let mut taken = CommandGroups::new();
        std::mem::swap(self, &mut taken);
        proof {
            use_type_invariant(&taken);
            lemma_below_without_group(taken@, *key, 0x1_0000);
        }
        let n = number_of(key);
        let CommandGroups { held, total } = taken;
        let mut held = held;
        let group = held.remove(&n);
        let removed = match &group {
            Some(commands) => commands.len(),
            None => 0,
        };
        assert(groups_of(held@) =~= old(self)@.remove(*key));
        *self = CommandGroups { held, total: total - removed };
        group
    }

    /// The keys of all groups, each once, in no particular order.
    pub fn keys(&self) -> (keys: Vec<(u8, u8)>)
        ensures
            keys@.no_duplicates(),
            forall|key: (u8, u8)| keys@.contains(key) <==> self@.contains_key(key),
    {
        let mut keys: Vec<(u8, u8)> = Vec::new();
        let ghost numbers = self.held.keys().remaining();
        for n in it: self.held.keys()
            invariant
                it.seq() == numbers,
                keys@.len() == it.index(),
                forall|i: int| 0 <= i < keys@.len() ==> key_number(keys@[i]) == *numbers[i],
        {
            keys.push(((*n / 256) as u8, (*n % 256) as u8));
        }
        proof {
            assert(keys@.len() == numbers.len());
            assert(numbers.unref().to_set() == self.held@.dom());
            assert(numbers.no_duplicates());
            assert forall|i: int, j: int| 0 <= i < j < keys@.len() implies keys@[i]
                != keys@[j] by {
                assert(numbers[i] != numbers[j]);
            }
            assert forall|key: (u8, u8)| keys@.contains(key) <==> self@.contains_key(key) by {
                if keys@.contains(key) {
                    let i = choose|i: int| 0 <= i < keys@.len() && keys@[i] == key;
                    assert(numbers.unref().to_set().contains(numbers.unref()[i]));
                }
                if self@.contains_key(key) {
                    assert(numbers.unref().to_set().contains(key_number(key)));
                    let i = choose|i: int|
                        0 <= i < numbers.unref().len() && numbers.unref()[i] == key_number(key);
                    assert(key_number(keys@[i]) == key_number(key));
                    assert(keys@[i] == key);
                }
            }
        }
        keys
    }

    /// Number of commands in all groups together. Every group holds at
    /// least one command, and only commands of its own key.
    pub fn command_count(&self) -> (n: usize)
        ensures
            n == total_commands(self@),
            well_grouped(self@),
    {
        proof {
            use_type_invariant(self);
        }
        self.total
    }
}

/// There are as many groups as the map has keys.
proof fn lemma_group_count(held: Map<u16, Vec<BatchCommand>>)
    requires
        held.dom().finite(),
    ensures
        groups_of(held).dom().finite(),
        groups_of(held).dom().len() == held.dom().len(),
{
    let f = |n: u16| ((n / 256) as u8, (n % 256) as u8);
    assert forall|a: u16, b: u16| #[trigger] f(a) == #[trigger] f(b) implies a == b by {}
    assert(vstd::relations::injective_on(f, held.dom()));
    let mapped = held.dom().map(f);
    assert forall|key: (u8, u8)| mapped.contains(key) <==> groups_of(held).dom().contains(
        key,
    ) by {
        if mapped.contains(key) {
            let n = choose|n: u16| held.dom().contains(n) && f(n) == key;
            assert(key_number(key) == n);
        }
        if groups_of(held).dom().contains(key) {
            assert(held.dom().contains(key_number(key)));
            assert(f(key_number(key)) == key);
        }
    }
    assert(mapped =~= groups_of(held).dom());
    vstd::set_lib::lemma_map_size(held.dom(), groups_of(held).dom(), f);
}

/// Collects write commands and says when to release them.
#[derive(Debug)]
pub struct CommandBatcher {
    pending_commands: CommandGroups,
    last_batch_time: Instant,
    batch_window_ms: u64,
    max_batch_size: usize,
}

impl View for CommandBatcher {
    type V = Groups;

    /// The waiting commands, by group.
    closed spec fn view(&self) -> Groups {
        self.pending_commands@
    }
}

impl CommandBatcher {
    /// The time window after which waiting commands are released, in
    /// milliseconds.
    pub closed spec fn spec_batch_window_ms(&self) -> u64 {
        self.batch_window_ms
    }

    /// The number of waiting commands at which they are released.
    pub closed spec fn spec_max_batch_size(&self) -> usize {
        self.max_batch_size
    }

    /// Whether waiting commands are due for release when `elapsed_nanos`
    /// nanoseconds have passed since the last release: the window has
    /// passed, or enough commands wait.
    pub open spec fn spec_release_due(&self, elapsed_nanos: u128) -> bool {
        elapsed_nanos >= self.spec_batch_window_ms() * 1_000_000 || total_commands(self@)
            >= self.spec_max_batch_size()
    }

    /// A batcher with the default window and size, holding nothing.
    pub fn new() -> (batcher: Self)
        ensures
            batcher@ == Map::<(u8, u8), Seq<BatchCommand>>::empty(),
            total_commands(batcher@) == 0,
            batcher.spec_batch_window_ms() == DEFAULT_BATCH_WINDOW_MS,
            batcher.spec_max_batch_size() == DEFAULT_MAX_BATCH_SIZE,
    {
        CommandBatcher::with_config(DEFAULT_BATCH_WINDOW_MS, DEFAULT_MAX_BATCH_SIZE)
    }

    /// A batcher that releases after `batch_window_ms` milliseconds or at
    /// `max_batch_size` waiting commands, holding nothing.
    pub fn with_config(batch_window_ms: u64, max_batch_size: usize) -> (batcher: Self)
        ensures
            batcher@ == Map::<(u8, u8), Seq<BatchCommand>>::empty(),
            total_commands(batcher@) == 0,
            batcher.spec_batch_window_ms() == batch_window_ms,
            batcher.spec_max_batch_size() == max_batch_size,
    {
        CommandBatcher {
            pending_commands: CommandGroups::new(),
            last_batch_time: current_instant(),
            batch_window_ms,
            max_batch_size,
        }
    }

    /// The configured window, in milliseconds.
    pub fn batch_window_ms(&self) -> (ms: u64)
        ensures
            ms == self.spec_batch_window_ms(),
    {
        self.batch_window_ms
    }

    /// The configured size.
    pub fn max_batch_size(&self) -> (n: usize)
        ensures
            n == self.spec_max_batch_size(),
    {
        self.max_batch_size
    }

    /// Number of waiting commands: the sum of the sizes of all groups.
    pub fn pending_count(&self) -> (n: usize)
        ensures
            n == total_commands(self@),
            well_grouped(self@),
    {
        self.pending_commands.command_count()
    }

    /// Whether no command waits.
    pub fn is_empty(&self) -> (b: bool)
        ensures
            b == (total_commands(self@) == 0),
    {
        self.pending_commands.command_count() == 0
    }

    /// Time since the batcher was made or last released its commands.
    pub fn elapsed_since_last_batch(&self) -> Duration {
        elapsed_since(&self.last_batch_time)
    }

    /// Whether waiting commands are due for release when `elapsed_nanos`
    /// nanoseconds have passed since the last release.
    pub fn release_due(&self, elapsed_nanos: u128) -> (due: bool)
        ensures
            due == self.spec_release_due(elapsed_nanos),
    {
        elapsed_nanos >= (self.batch_window_ms as u128) * 1_000_000
            || self.pending_commands.command_count() >= self.max_batch_size
    }

    /// Whether waiting commands are due for release now. They are due in
    /// any case once as many wait as the configured size, or where the
    /// window is 0.
    pub fn should_execute(&self) -> (due: bool)
        ensures
            exists|elapsed_nanos: u128| due == self.spec_release_due(elapsed_nanos),
            total_commands(self@) >= self.spec_max_batch_size() ==> due,
            self.spec_batch_window_ms() == 0 ==> due,
    {
        let elapsed = elapsed_since(&self.last_batch_time);
        let elapsed_nanos = nanos_of(&elapsed);
        self.release_due(elapsed_nanos)
    }

    /// Adds a command behind those of its group. Never refuses: the size
    /// says when to release, not how many may wait.
    pub fn add_command(&mut self, command: BatchCommand)
        requires
            total_commands(old(self)@) < usize::MAX,
        ensures
            final(self)@ == with_command(old(self)@, command),
            total_commands(final(self)@) == total_commands(old(self)@) + 1,
            well_grouped(final(self)@),
            final(self).spec_batch_window_ms() == old(self).spec_batch_window_ms(),
            final(self).spec_max_batch_size() == old(self).spec_max_batch_size(),
    {
        let mut pending = CommandGroups::new();
        std::mem::swap(&mut pending, &mut self.pending_commands);
        proof {
            use_type_invariant(&pending);
            lemma_with_command(pending@, command);
        }
        self.pending_commands = pending.with(command);
    }

    /// Hands out all waiting commands, by group, and starts a new
    /// window. Nothing waits afterwards.
    pub fn take_commands(&mut self) -> (groups: CommandGroups)
        ensures
            groups@ == old(self)@,
            well_grouped(groups@),
            final(self)@ == Map::<(u8, u8), Seq<BatchCommand>>::empty(),
            total_commands(final(self)@) == 0,
            final(self).spec_batch_window_ms() == old(self).spec_batch_window_ms(),
            final(self).spec_max_batch_size() == old(self).spec_max_batch_size(),
    {
        let mut released = CommandGroups::new();
        std::mem::swap(&mut released, &mut self.pending_commands);
        self.last_batch_time = current_instant();
        proof {
            use_type_invariant(&released);
        }
        released
    }

    /// Drops all waiting commands. The window goes on.
    pub fn clear(&mut self)
        ensures
            final(self)@ == Map::<(u8, u8), Seq<BatchCommand>>::empty(),
            total_commands(final(self)@) == 0,
            final(self).spec_batch_window_ms() == old(self).spec_batch_window_ms(),
            final(self).spec_max_batch_size() == old(self).spec_max_batch_size(),
    {
        self.pending_commands = CommandGroups::new();
    }
}

impl Default for CommandBatcher {
    fn default() -> (batcher: Self)
        ensures
            batcher@ == Map::<(u8, u8), Seq<BatchCommand>>::empty(),
            total_commands(batcher@) == 0,
            batcher.spec_batch_window_ms() == DEFAULT_BATCH_WINDOW_MS,
            batcher.spec_max_batch_size() == DEFAULT_MAX_BATCH_SIZE,
    {
        CommandBatcher::new()
    }
}

/// Number of registers that the value of a command takes: that of its
/// data type, one where the tag is unknown.
pub open spec fn span_of(command: BatchCommand) -> int {
    match data_type_of(command.data_type@) {
        Some(t) => t.spec_register_count() as int,
        None => 1,
    }
}

/// Whether command `j` comes before command `i` in address order:
/// commands are ordered by address, and those of one address by their
/// position.
pub open spec fn precedes(commands: Seq<BatchCommand>, j: int, i: int) -> bool {
    commands[j].register_address < commands[i].register_address || (commands[j].register_address
        == commands[i].register_address && j < i)
}

/// Number of registers taken by the commands that come before command
/// `i` in address order, counting those at a position below `bound`.
pub open spec fn registers_before(commands: Seq<BatchCommand>, i: int, bound: int) -> int
    decreases bound,
{
    if bound <= 0 {
        0
    } else {
        registers_before(commands, i, bound - 1) + if precedes(commands, bound - 1, i) {
            span_of(commands[bound - 1])
        } else {
            0
        }
    }
}

/// The lowest address among the first `bound` commands.
pub open spec fn lowest_address(commands: Seq<BatchCommand>, bound: int) -> int
    decreases bound,
{
    if bound <= 1 {
        commands[0].register_address as int
    } else {
        let rest = lowest_address(commands, bound - 1);
        if commands[bound - 1].register_address < rest {
            commands[bound - 1].register_address as int
        } else {
            rest
        }
    }
}

/// Whether at least two commands fill a run of registers without gap or
/// overlap: every command starts where those before it in address order
/// end, the first at the lowest address.
pub open spec fn strictly_consecutive(commands: Seq<BatchCommand>) -> bool {
    commands.len() >= 2 && forall|i: int|
        0 <= i < commands.len() ==> (#[trigger] commands[i]).register_address == lowest_address(
            commands,
            commands.len() as int,
        ) + registers_before(commands, i, commands.len() as int)
}

proof fn lemma_registers_before_grows(commands: Seq<BatchCommand>, i: int, low: int, high: int)
    requires
        0 <= low <= high,
    ensures
        0 <= registers_before(commands, i, low) <= registers_before(commands, i, high),
    decreases high,
{
    if high > 0 {
        if low < high {
            lemma_registers_before_grows(commands, i, low, high - 1);
        } else {
            lemma_registers_before_grows(commands, i, low - 1, high - 1);
        }
    }
}

/// Whether no two commands start at the same address.
pub open spec fn distinct_addresses(commands: Seq<BatchCommand>) -> bool {
    forall|i: int, j: int|
        0 <= i < j < commands.len() ==> commands[i].register_address
            != commands[j].register_address
}

/// Number of registers taken by the commands that start below an
/// address.
spec fn registers_below(commands: Seq<BatchCommand>, address: int) -> int
    decreases commands.len(),
{
    if commands.len() == 0 {
        0
    } else {
        registers_below(commands.drop_last(), address) + if commands.last().register_address
            < address {
            span_of(commands.last())
        } else {
            0
        }
    }
}

proof fn lemma_before_is_below(commands: Seq<BatchCommand>, i: int, bound: int)
    requires
        distinct_addresses(commands),
        0 <= i < commands.len(),
        0 <= bound <= commands.len(),
    ensures
        registers_before(commands, i, bound) == registers_below(
            commands.take(bound),
            commands[i].register_address as int,
        ),
    decreases bound,
{
    if bound > 0 {
        lemma_before_is_below(commands, i, bound - 1);
        assert(commands.take(bound).drop_last() =~= commands.take(bound - 1));
        assert(commands.take(bound).last() == commands[bound - 1]);
        if bound - 1 < i {
            assert(commands[bound - 1].register_address != commands[i].register_address);
        } else if i < bound - 1 {
            assert(commands[i].register_address != commands[bound - 1].register_address);
        }
    }
}

proof fn lemma_below_without(commands: Seq<BatchCommand>, k: int, address: int)
    requires
        0 <= k < commands.len(),
    ensures
        registers_below(commands, address) == registers_below(commands.remove(k), address)
            + if commands[k].register_address < address {
            span_of(commands[k])
        } else {
            0
        },
    decreases commands.len(),
{
    if k == commands.len() - 1 {
        assert(commands.remove(k) =~= commands.drop_last());
    } else {
        lemma_below_without(commands.drop_last(), k, address);
        assert(commands.remove(k).drop_last() =~= commands.drop_last().remove(k));
        assert(commands.remove(k).last() == commands.last());
    }
}

proof fn lemma_below_any_order(first: Seq<BatchCommand>, second: Seq<BatchCommand>, address: int)
    requires
        first.to_multiset() == second.to_multiset(),
    ensures
        registers_below(first, address) == registers_below(second, address),
    decreases first.len(),
{
    broadcast use vstd::seq_lib::group_to_multiset_ensures;

    assert(first.len() == first.to_multiset().len());
    assert(second.len() == second.to_multiset().len());
    if first.len() > 0 {
        let x = first.last();
        let rest = first.drop_last();
        assert(first =~= rest.push(x));
        assert(first.to_multiset().count(x) > 0);
        assert(second.contains(x));
        let k = choose|k: int| 0 <= k < second.len() && second[k] == x;
        assert(rest.to_multiset() =~= first.to_multiset().remove(x));
        assert(second.remove(k).to_multiset() =~= rest.to_multiset());
        lemma_below_any_order(rest, second.remove(k), address);
        lemma_below_without(second, k, address);
    }
}

proof fn lemma_lowest_is_least(commands: Seq<BatchCommand>, bound: int)
    requires
        1 <= bound <= commands.len(),
    ensures
        forall|i: int|
            0 <= i < bound ==> lowest_address(commands, bound) <= (
            #[trigger] commands[i]).register_address,
        exists|i: int|
            0 <= i < bound && lowest_address(commands, bound) == (
            #[trigger] commands[i]).register_address,
    decreases bound,
{
    if bound > 1 {
        lemma_lowest_is_least(commands, bound - 1);
        let w = choose|i: int|
            0 <= i < bound - 1 && lowest_address(commands, bound - 1) == (
            #[trigger] commands[i]).register_address;
        if commands[bound - 1].register_address < lowest_address(commands, bound - 1) {
            assert(lowest_address(commands, bound) == commands[bound - 1].register_address);
        } else {
            assert(lowest_address(commands, bound) == commands[w].register_address);
        }
    } else {
        assert(lowest_address(commands, bound) == commands[0].register_address);
    }
}

proof fn lemma_member_of_both(first: Seq<BatchCommand>, second: Seq<BatchCommand>, i: int) -> (j:
    int)
    requires
        first.to_multiset() == second.to_multiset(),
        0 <= i < first.len(),
    ensures
        0 <= j < second.len(),
        second[j] == first[i],
{
    broadcast use vstd::seq_lib::group_to_multiset_ensures;

    assert(first.contains(first[i]));
    assert(second.to_multiset().count(first[i]) > 0);
    assert(second.contains(first[i]));
    choose|j: int| 0 <= j < second.len() && second[j] == first[i]
}

proof fn lemma_lowest_any_order(first: Seq<BatchCommand>, second: Seq<BatchCommand>)
    requires
        first.to_multiset() == second.to_multiset(),
        first.len() >= 1,
    ensures
        second.len() == first.len(),
        lowest_address(first, first.len() as int) == lowest_address(second, second.len() as int),
{
    broadcast use vstd::seq_lib::group_to_multiset_ensures;

    assert(first.len() == first.to_multiset().len());
    assert(second.len() == second.to_multiset().len());
    let n = first.len() as int;
    lemma_lowest_is_least(first, n);
    lemma_lowest_is_least(second, n);
    let a = choose|i: int|
        0 <= i < n && lowest_address(first, n) == (#[trigger] first[i]).register_address;
    let b = choose|i: int|
        0 <= i < n && lowest_address(second, n) == (#[trigger] second[i]).register_address;
    let a2 = lemma_member_of_both(first, second, a);
    let b1 = lemma_member_of_both(second, first, b);
    assert(lowest_address(second, n) <= second[a2].register_address);
    assert(lowest_address(first, n) <= first[b1].register_address);
}

proof fn lemma_consecutive_carries_over(first: Seq<BatchCommand>, second: Seq<BatchCommand>)
    requires
        distinct_addresses(first),
        distinct_addresses(second),
        first.to_multiset() == second.to_multiset(),
        strictly_consecutive(first),
    ensures
        strictly_consecutive(second),
{
    lemma_lowest_any_order(first, second);
    let n = first.len() as int;
    assert forall|i: int| 0 <= i < second.len() implies (
    #[trigger] second[i]).register_address == lowest_address(second, n) + registers_before(
        second,
        i,
        n,
    ) by {
        let j = lemma_member_of_both(second, first, i);
        let address = second[i].register_address as int;
        assert(first[j].register_address == lowest_address(first, n) + registers_before(
            first,
            j,
            n,
        ));
        lemma_before_is_below(first, j, n);
        lemma_before_is_below(second, i, n);
        assert(first.take(n) =~= first);
        assert(second.take(n) =~= second);
        lemma_below_any_order(first, second, address);
    }
}

/// Commands that start at different addresses are consecutive or not
/// whatever the order in which they are given.
pub proof fn lemma_consecutive_in_any_order(first: Seq<BatchCommand>, second: Seq<BatchCommand>)
    requires
        distinct_addresses(first),
        distinct_addresses(second),
        first.to_multiset() == second.to_multiset(),
    ensures
        strictly_consecutive(first) == strictly_consecutive(second),
{
    if strictly_consecutive(first) {
        lemma_consecutive_carries_over(first, second);
    }
    if strictly_consecutive(second) {
        lemma_consecutive_carries_over(second, first);
    }
}

/// Fewer than two commands are never consecutive.
pub proof fn lemma_consecutive_takes_two(commands: Seq<BatchCommand>)
    ensures
        commands.len() < 2 ==> !strictly_consecutive(commands),
{
}

impl CommandBatcher {
    /// Number of registers that a value of the tagged type takes, one for
    /// an unknown tag.
    pub fn get_register_count(data_type: &str) -> (n: u16)
        ensures
            n == match data_type_of(data_type@) {
                Some(t) => t.spec_register_count(),
                None => 1,
            },
    {
        registers_for_type(data_type) as u16
    }

    /// Whether commands target a run of registers without gap or overlap,
    /// so that one Write Multiple Registers request can stand for them.
    /// The order in which the commands are given does not count. Fewer
    /// than two commands are never consecutive.
    pub fn are_strictly_consecutive(commands: &[BatchCommand]) -> (b: bool)
        ensures
            b == strictly_consecutive(commands@),
    {
        let n = commands.len();
        if n < 2 {
            return false;
        }
        let mut lowest: u16 = commands[0].register_address;
        let mut spans: Vec<u16> = Vec::new();
        let mut k: usize = 0;
        while k < n
            invariant
                n == commands@.len(),
                k <= n,
                lowest == lowest_address(commands@, k as int),
                spans@.len() == k,
                forall|j: int| 0 <= j < k ==> spans@[j] == span_of(commands@[j]),
            decreases n - k,
        {
            if commands[k].register_address < lowest {
                lowest = commands[k].register_address;
            }
            spans.push(CommandBatcher::get_register_count(commands[k].data_type));
            k += 1;
        }
        let mut i: usize = 0;
        while i < n
            invariant
                n == commands@.len(),
                n >= 2,
                i <= n,
                lowest == lowest_address(commands@, n as int),
                spans@.len() == n,
                forall|j: int| 0 <= j < n ==> spans@[j] == span_of(commands@[j]),
                forall|m: int|
                    0 <= m < i ==> (#[trigger] commands@[m]).register_address == lowest
                        + registers_before(commands@, m, n as int),
            decreases n - i,
        {
            let address = commands[i].register_address;
            let mut before: u32 = 0;
            let mut j: usize = 0;
            while j < n
                invariant
                    n == commands@.len(),
                    i < n,
                    j <= n,
                    address == commands@[i as int].register_address,
                    lowest == lowest_address(commands@, n as int),
                    spans@.len() == n,
                    forall|m: int| 0 <= m < n ==> spans@[m] == span_of(commands@[m]),
                    before == registers_before(commands@, i as int, j as int),
                    before <= 0xFFFF,
                decreases n - j,
            {
                let other = commands[j].register_address;
                if other < address || (other == address && j < i) {
                    before = before + spans[j] as u32;
                }
                j += 1;
                if before > 0xFFFF {
                    proof {
                        lemma_registers_before_grows(commands@, i as int, j as int, n as int);
                        assert(commands@[i as int].register_address != lowest + registers_before(
                            commands@,
                            i as int,
                            n as int,
                        ));
                    }
                    return false;
                }
            }
            if address as u32 != lowest as u32 + before {
                return false;
            }
            i += 1;
        }
        true
    }
}

/// A point in time, as the monotonic clock of the standard library gives
/// it. Nothing is known of its value.
#[verifier::external_type_specification]
#[verifier::external_body]
pub struct ExInstant(Instant);

/// `Instant::now`: the current reading of the monotonic clock. Nothing
/// is claimed of it.
#[verifier::external_body]
fn current_instant() -> Instant {
    Instant::now()
}

/// `Instant::elapsed`: the time that has passed since an instant. It
/// differs from call to call, so nothing is claimed of it.
#[verifier::external_body]
fn elapsed_since(start: &Instant) -> Duration {
    start.elapsed()
}

/// `Duration::as_nanos`: a duration in whole nanoseconds. Nothing is
/// claimed of the number.
#[verifier::external_body]
fn nanos_of(duration: &Duration) -> u128 {
    duration.as_nanos()
}

} // verus!
