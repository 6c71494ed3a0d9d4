//! Advisory process context a thin client captures before it sends a
//! frame. Socket credentials remain the authoritative security boundary
//! in the daemon.

use std::cmp::Ordering;

use vstd::prelude::*;
use vstd::std_specs::cmp::PartialOrdSpecImpl;
use crate::search::{last_index, lemma_last_index};
use crate::text::{parse_u64, parsed_u64, split_whitespace, strings_of, words};

verus! {

#[derive(Debug, Clone, Copy, PartialEq, Eq, Ord, Hash, Structural)]
pub struct ProcessIdentifier {
    value: u32,
}

/// Ordered by value.
impl PartialOrd for ProcessIdentifier {
    fn partial_cmp(&self, other: &Self) -> (order: Option<Ordering>) {
        if self.value < other.value {
            Some(Ordering::Less)
        } else if self.value == other.value {
            Some(Ordering::Equal)
        } else {
            Some(Ordering::Greater)
        }
    }
}

impl PartialOrdSpecImpl for ProcessIdentifier {
    open spec fn obeys_partial_cmp_spec() -> bool {
        true
    }

    open spec fn partial_cmp_spec(&self, other: &Self) -> Option<Ordering> {
        if self@ < other@ {
            Some(Ordering::Less)
        } else if self@ == other@ {
            Some(Ordering::Equal)
        } else {
            Some(Ordering::Greater)
        }
    }
}

impl View for ProcessIdentifier {
    type V = u32;

    closed spec fn view(&self) -> u32 {
        self.value
    }
}

impl ProcessIdentifier {
    /// Two values of this type with the same view are the same value.
    pub proof fn lemma_view_injective(self, other: Self)
        requires
            self@ == other@,
        ensures
            self == other,
    {
    }

    pub fn new(value: u32) -> (identifier: Self)
        ensures
            identifier@ == value,
    {
        ProcessIdentifier { value }
    }

    pub fn value(self) -> (value: u32)
        ensures
            value == self@,
    {
        self.value
    }
}

/// The path of a process executable, held as text.
#[derive(Debug, Clone, PartialEq, Eq, Hash)]
pub struct ExecutablePath {
    path: String,
}

impl View for ExecutablePath {
    type V = Seq<char>;

    closed spec fn view(&self) -> Seq<char> {
        self.path@
    }
}

impl ExecutablePath {
    pub fn new(path: String) -> (executable: Self)
        ensures
            executable@ == path@,
    {
        ExecutablePath { path }
    }

    pub fn as_str(&self) -> (path: &str)
        ensures
            path@ == self@,
    {
        self.path.as_str()
    }

}

#[derive(Debug, Clone, Copy, PartialEq, Eq, Hash, Structural)]
pub struct ProcessStartTime {
    clock_ticks_after_boot: u64,
}

impl View for ProcessStartTime {
    type V = u64;

    closed spec fn view(&self) -> u64 {
        self.clock_ticks_after_boot
    }
}

impl ProcessStartTime {
    /// Two values of this type with the same view are the same value.
    pub proof fn lemma_view_injective(self, other: Self)
        requires
            self@ == other@,
        ensures
            self == other,
    {
    }

    pub fn new(clock_ticks_after_boot: u64) -> (start_time: Self)
        ensures
            start_time@ == clock_ticks_after_boot,
    {
        ProcessStartTime { clock_ticks_after_boot }
    }

    pub fn clock_ticks_after_boot(self) -> (ticks: u64)
        ensures
            ticks == self@,
    {
        self.clock_ticks_after_boot
    }
}

/// The name a caller gives for itself, advisory like the rest of the
/// caller context.
#[derive(Debug, Clone, PartialEq, Eq, Hash)]
pub struct CallerIdentity {
    name: String,
}

impl View for CallerIdentity {
    type V = Seq<char>;

    closed spec fn view(&self) -> Seq<char> {
        self.name@
    }
}

impl CallerIdentity {
    pub fn new(name: String) -> (identity: Self)
        ensures
            identity@ == name@,
    {
        CallerIdentity { name }
    }

    pub fn as_str(&self) -> (name: &str)
        ensures
            name@ == self@,
    {
        self.name.as_str()
    }
}

/// Advisory process context captured by a thin client before it sends a
/// frame.
#[derive(Debug, Clone, PartialEq, Eq)]
pub struct Caller {
    pub pid: ProcessIdentifier,
    pub executable: Option<ExecutablePath>,
    pub start_time: Option<ProcessStartTime>,
    pub identity: Option<CallerIdentity>,
}

impl Caller {
    pub fn new(
        pid: ProcessIdentifier,
        executable: Option<ExecutablePath>,
        start_time: Option<ProcessStartTime>,
    ) -> (caller: Self)
        ensures
            caller.pid == pid,
            caller.executable == executable,
            caller.start_time == start_time,
            caller.identity is None,
    {
        Caller { pid, executable, start_time, identity: None }
    }

    /// The same context, naming the caller by `identity`.
    pub fn with_identity(self, identity: Option<CallerIdentity>) -> (caller: Self)
        ensures
            caller.pid == self.pid,
            caller.executable == self.executable,
            caller.start_time == self.start_time,
            caller.identity == identity,
    {
        Caller { identity, ..self }
    }

    /// The name the caller gives for itself, if any.
    pub fn identity(&self) -> (identity: Option<&CallerIdentity>)
        ensures
            identity is Some <==> self.identity is Some,
            identity matches Some(found) ==> *found == self.identity.unwrap(),
    {
        match &self.identity {
            Some(identity) => Some(identity),
            None => None,
        }
    }
}

/// A `) ` pair starts at `index` of `stat`: the close of the command name
/// in a process status line.
pub open spec fn closes_command_at(stat: Seq<char>) -> spec_fn(int) -> bool {
    |index: int| 0 <= index && index + 1 < stat.len() && stat[index] == ')' && stat[index + 1] == ' '
}

/// The start time, in clock ticks after boot, that a process status line
/// gives: the twentieth white-space separated field after the last `) `,
/// read as an unsigned decimal; nothing where there is no `) `, no such
/// field, or the field is no such number.
pub open spec fn stat_start_time(stat: Seq<char>) -> Option<u64> {
    match last_index(stat.len(), closes_command_at(stat)) {
        None => None,
        Some(close) => {
            let fields = words(stat.skip(close + 2));
            if fields.len() > 19 {
                parsed_u64(fields[19])
            } else {
                None
            }
        },
    }
}

/// The start time a process status line gives, as [`stat_start_time`]
/// says.
pub fn start_time_ticks(stat: &str) -> (ticks: Option<u64>)
    ensures
        ticks == stat_start_time(stat@),
{
    let length = stat.unicode_len();
    let ghost property = closes_command_at(stat@);
    let mut index: usize = length;
    let mut close: Option<usize> = None;
    while close.is_none() && index > 0
        invariant
            length == stat@.len(),
            index <= length,
            property == closes_command_at(stat@),
            close is None ==> last_index(length as nat, property) == last_index(index as nat, property),
            close matches Some(found) ==> last_index(length as nat, property) == Some(found as int),
        decreases index,
    {
        let candidate = index - 1;
        if candidate + 1 < length && stat.get_char(candidate) == ')' && stat.get_char(candidate + 1) == ' ' {
            close = Some(candidate);
        }
        index = candidate;
    }
    let close = match close {
        Some(found) => found,
        None => {
            return None;
        },
    };
    proof {
        lemma_last_index(length as nat, property);
    }
    let rest = stat.substring_char(close + 2, length);
    assert(rest@ =~= stat@.skip(close + 2));
    let fields = split_whitespace(rest);
    if fields.len() > 19 {
        assert(fields@[19]@ == strings_of(fields@)[19]);
        parse_u64(fields[19].as_str())
    } else {
        None
    }
}

/// `caller` is the context of the process `parent`, with the executable
/// path and the start time of the status line that were read.
pub open spec fn describes_parent(caller: Caller, parent: u32, executable: Option<String>, stat: Option<String>) -> bool {
    &&& caller.pid@ == parent
    &&& caller.identity is None
    &&& match executable {
        Some(path) => caller.executable matches Some(read) && read@ == path@,
        None => caller.executable is None,
    }
    &&& match stat {
        Some(text) => match stat_start_time(text@) {
            Some(ticks) => caller.start_time matches Some(start) && start@ == ticks,
            None => caller.start_time is None,
        },
        None => caller.start_time is None,
    }
}

impl Caller {
    /// The context of a parent process: none for the init process, which
    /// adopted the caller; otherwise the parent, with its executable path
    /// where it could be read and the start time its status line gives,
    /// where it could be read.
    pub fn from_parent(parent: u32, executable: Option<String>, stat: Option<String>) -> (caller: Option<Self>)
        ensures
            parent == 1 ==> caller is None,
            parent != 1 ==> (caller matches Some(found) && describes_parent(found, parent, executable, stat)),
    {
        if parent == 1 {
            return None;
        }
        let executable = match executable {
            Some(path) => Some(ExecutablePath::new(path)),
            None => None,
        };
        let start_time = match stat {
            Some(text) => match start_time_ticks(text.as_str()) {
                Some(ticks) => Some(ProcessStartTime::new(ticks)),
                None => None,
            },
            None => None,
        };
        Some(Caller { pid: ProcessIdentifier::new(parent), executable, start_time, identity: None })
    }
}

} // verus!
