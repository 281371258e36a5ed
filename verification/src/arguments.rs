//! The command line: which argument names which path, and which switches
//! are on.
//!
//! A path is given after its name, or without a name: then it fills what is
//! not set yet, the target first. Names and switches are read without
//! regard to case. The reading speaks of the arguments by their positions.

use vstd::prelude::*;
use vstd::string::StrSliceExecFns;
use crate::oracle::{lowercase, to_lowercase};

verus! {

/// What an argument is read as.
#[derive(Debug, Clone, Copy, PartialEq, Eq, Structural)]
pub enum Word {
    /// `--target`: the next argument is the active location.
    Target,
    /// `--source`: the next argument is the storage.
    Source,
    /// `--temp`: the next argument is the staging place.
    Temp,
    /// `--program`: the next argument is the program under test.
    Program,
    /// `--exhaustive` or `-e`.
    Exhaustive,
    /// `--dummy` or `-d`.
    Dummy,
    /// `--autorecover` or `-a`.
    AutoRecover,
    /// `--help` or `-h`.
    Help,
    /// Anything else: a path without a name.
    Plain,
}

/// A path that the command line can set.
#[derive(Debug, Clone, Copy, PartialEq, Eq, Structural)]
pub enum Slot {
    Target,
    Source,
    Temp,
    Program,
}

/// What the user is warned of; none of it ends the reading.
#[derive(Debug, Clone, Copy, PartialEq, Eq, Structural)]
pub enum Warning {
    /// A path that was set already is set again by name.
    Reassigned(Slot),
    /// The argument at this position has no name and nothing is left for it
    /// to fill.
    Unused(usize),
}

/// How the reading ended.
#[derive(Debug, Clone, Copy, PartialEq, Eq, Structural)]
pub enum End {
    /// Every argument was read.
    Complete,
    /// Help was asked for: nothing after it was read.
    Help,
    /// The last argument is the name of this path, with no path after it.
    Missing(Slot),
}

/// The paths, each as the position of the argument that holds it, and the
/// switches.
#[derive(Debug, Clone, Copy, PartialEq, Eq, Structural)]
pub struct Named {
    pub target_dir: Option<usize>,
    pub source_dir: Option<usize>,
    /// The source was taken from the target for want of one of its own, and
    /// gives way to the next path that comes.
    pub auto_assigned_source: bool,
    pub temp_dir: Option<usize>,
    pub program: Option<usize>,
    pub dummy_mode: bool,
    pub exhaustive: bool,
    pub auto_recover: bool,
}

/// What one argument does to the reading.
pub struct Taken {
    pub named: Named,
    pub warning: Option<Warning>,
    /// How the reading ends here, if it does.
    pub end: Option<End>,
    /// Whether the argument after this one was used up with it.
    pub took_next: bool,
}

/// What an argument is read as whose lower case form is `lowered`: the
/// name of a path, a switch in its long or its short form, or a path.
pub open spec fn word_of_lowered(lowered: Seq<char>) -> Word {
    if lowered == "--target"@ {
        Word::Target
    } else if lowered == "--source"@ {
        Word::Source
    } else if lowered == "--temp"@ {
        Word::Temp
    } else if lowered == "--program"@ {
        Word::Program
    } else if lowered == "--exhaustive"@ || lowered == "-e"@ {
        Word::Exhaustive
    } else if lowered == "--dummy"@ || lowered == "-d"@ {
        Word::Dummy
    } else if lowered == "--autorecover"@ || lowered == "-a"@ {
        Word::AutoRecover
    } else if lowered == "--help"@ || lowered == "-h"@ {
        Word::Help
    } else {
        Word::Plain
    }
}

/// What `argument` is read as: its lower case form decides.
pub open spec fn word_of(argument: Seq<char>) -> Word {
    word_of_lowered(lowercase(argument))
}

impl Named {
    /// Nothing is set.
    pub open spec fn nothing() -> Named {
        Named {
            target_dir: None,
            source_dir: None,
            auto_assigned_source: false,
            temp_dir: None,
            program: None,
            dummy_mode: false,
            exhaustive: false,
            auto_recover: false,
        }
    }

    /// The path of `slot`, if it is set.
    pub open spec fn path(self, slot: Slot) -> Option<usize> {
        match slot {
            Slot::Target => self.target_dir,
            Slot::Source => self.source_dir,
            Slot::Temp => self.temp_dir,
            Slot::Program => self.program,
        }
    }

    /// Whether to set `slot` by name is to set it again: the source that
    /// was taken from the target does not count as set.
    pub open spec fn taken(self, slot: Slot) -> bool {
        match slot {
            Slot::Source => !self.auto_assigned_source && self.source_dir is Some,
            _ => self.path(slot) is Some,
        }
    }

    /// The reading with `slot` set by name to the argument at `at`. A
    /// target brings the source with it where there is none; a source set
    /// by name stays.
    pub open spec fn set(self, slot: Slot, at: usize) -> Named {
        match slot {
            Slot::Target => if self.source_dir is None {
                Named {
                    target_dir: Some(at),
                    source_dir: Some(at),
                    auto_assigned_source: true,
                    ..self
                }
            } else {
                Named { target_dir: Some(at), ..self }
            },
            Slot::Source => Named { source_dir: Some(at), auto_assigned_source: false, ..self },
            Slot::Temp => Named { temp_dir: Some(at), ..self },
            Slot::Program => Named { program: Some(at), ..self },
        }
    }

    /// The path that an argument without a name fills: the target, then
    /// the source unless it was set by name, then the staging place, then
    /// the program; none where all are set.
    pub open spec fn vacant(self) -> Option<Slot> {
        if self.target_dir is None {
            Some(Slot::Target)
        } else if self.source_dir is None || self.auto_assigned_source {
            Some(Slot::Source)
        } else if self.temp_dir is None {
            Some(Slot::Temp)
        } else if self.program is None {
            Some(Slot::Program)
        } else {
            None
        }
    }

    /// What the argument at `at` of `count`, read as `word`, does.
    ///
    /// The name of a path takes the next argument as the path, with a
    /// warning where the path was set; where there is no next argument the
    /// reading ends. A switch is turned on. Help ends the reading. A path
    /// without a name fills what is vacant, or is warned of where nothing
    /// is.
    pub open spec fn take(self, word: Word, at: usize, count: nat) -> Taken {
        match word {
            Word::Target => self.take_named(Slot::Target, at, count),
            Word::Source => self.take_named(Slot::Source, at, count),
            Word::Temp => self.take_named(Slot::Temp, at, count),
            Word::Program => self.take_named(Slot::Program, at, count),
            Word::Exhaustive => Taken {
                named: Named { exhaustive: true, ..self },
                warning: None,
                end: None,
                took_next: false,
            },
            Word::Dummy => Taken {
                named: Named { dummy_mode: true, ..self },
                warning: None,
                end: None,
                took_next: false,
            },
            Word::AutoRecover => Taken {
                named: Named { auto_recover: true, ..self },
                warning: None,
                end: None,
                took_next: false,
            },
            Word::Help => Taken {
                named: self,
                warning: None,
                end: Some(End::Help),
                took_next: false,
            },
            Word::Plain => match self.vacant() {
                Some(slot) => Taken {
                    named: self.set(slot, at),
                    warning: None,
                    end: None,
                    took_next: false,
                },
                None => Taken {
                    named: self,
                    warning: Some(Warning::Unused(at)),
                    end: None,
                    took_next: false,
                },
            },
        }
    }

    /// What the name of `slot` at `at` of `count` does.
    pub open spec fn take_named(self, slot: Slot, at: usize, count: nat) -> Taken {
        let warning = if self.taken(slot) {
            Some(Warning::Reassigned(slot))
        } else {
            None
        };
        if at + 1 < count {
            Taken { named: self.set(slot, (at + 1) as usize), warning, end: None, took_next: true }
        } else {
            Taken { named: self, warning, end: Some(End::Missing(slot)), took_next: false }
        }
    }
}

/// What the command line says.
pub struct Reading {
    pub named: Named,
    /// The warnings, in the order in which they came up.
    pub warnings: Vec<Warning>,
    pub end: End,
}

/// What the command line says, as a mathematical value.
pub struct Read {
    pub named: Named,
    pub warnings: Seq<Warning>,
    pub end: End,
}

impl View for Reading {
    type V = Read;

    open spec fn view(&self) -> Read {
        Read { named: self.named, warnings: self.warnings@, end: self.end }
    }
}

/// The arguments as texts.
pub open spec fn texts(arguments: Seq<String>) -> Seq<Seq<char>> {
    Seq::new(arguments.len(), |i: int| arguments[i]@)
}

/// The reading of the arguments from position `at` on, with `named` set
/// and `warnings` given so far.
pub open spec fn read_from(
    arguments: Seq<Seq<char>>,
    at: nat,
    named: Named,
    warnings: Seq<Warning>,
) -> Read
    decreases arguments.len() + 1 - at,
{
    if at >= arguments.len() {
        Read { named, warnings, end: End::Complete }
    } else {
        let taken = named.take(word_of(arguments[at as int]), at as usize, arguments.len());
        let warned = match taken.warning {
            Some(warning) => warnings.push(warning),
            None => warnings,
        };
        match taken.end {
            Some(end) => Read { named: taken.named, warnings: warned, end },
            None => read_from(
                arguments,
                if taken.took_next {
                    at + 2
                } else {
                    at + 1
                },
                taken.named,
                warned,
            ),
        }
    }
}

/// The reading of the whole command line, the program's own name left out.
pub open spec fn read(arguments: Seq<Seq<char>>) -> Read {
    read_from(arguments, 0, Named::nothing(), Seq::empty())
}

/// Whether two texts are the same.
pub fn same_text(one: &str, other: &str) -> (same: bool)
    ensures
        same == (one@ == other@),
{
    let count = one.unicode_len();
    if count != other.unicode_len() {
        return false;
    }
    let mut at: usize = 0;
    while at < count
        invariant
            count == one@.len(),
            count == other@.len(),
            at <= count,
            forall|i: int| 0 <= i < at ==> one@[i] == other@[i],
        decreases count - at,
    {
        if one.get_char(at) != other.get_char(at) {
            return false;
        }
        at += 1;
    }
    assert(one@ =~= other@);
    true
}

/// What an argument is read as whose lower case form is `lowered`.
pub fn lowered_word(lowered: &str) -> (word: Word)
    ensures
        word == word_of_lowered(lowered@),
{
    if same_text(lowered, "--target") {
        Word::Target
    } else if same_text(lowered, "--source") {
        Word::Source
    } else if same_text(lowered, "--temp") {
        Word::Temp
    } else if same_text(lowered, "--program") {
        Word::Program
    } else if same_text(lowered, "--exhaustive") || same_text(lowered, "-e") {
        Word::Exhaustive
    } else if same_text(lowered, "--dummy") || same_text(lowered, "-d") {
        Word::Dummy
    } else if same_text(lowered, "--autorecover") || same_text(lowered, "-a") {
        Word::AutoRecover
    } else if same_text(lowered, "--help") || same_text(lowered, "-h") {
        Word::Help
    } else {
        Word::Plain
    }
}

/// What `argument` is read as.
pub fn word(argument: &str) -> (word: Word)
    ensures
        word == word_of(argument@),
{
    let lowered = to_lowercase(argument);
    lowered_word(lowered.as_str())
}

impl Named {
    /// Nothing is set.
    pub fn new() -> (named: Named)
        ensures
            named == Named::nothing(),
    {
        Named {
            target_dir: None,
            source_dir: None,
            auto_assigned_source: false,
            temp_dir: None,
            program: None,
            dummy_mode: false,
            exhaustive: false,
            auto_recover: false,
        }
    }

    fn is_taken(&self, slot: Slot) -> (taken: bool)
        ensures
            taken == self.taken(slot),
    {
        match slot {
            Slot::Target => self.target_dir.is_some(),
            Slot::Source => !self.auto_assigned_source && self.source_dir.is_some(),
            Slot::Temp => self.temp_dir.is_some(),
            Slot::Program => self.program.is_some(),
        }
    }

    fn with(&self, slot: Slot, at: usize) -> (named: Named)
        ensures
            named == self.set(slot, at),
    {
        let mut named = *self;
        match slot {
            Slot::Target => {
                named.target_dir = Some(at);
                if named.source_dir.is_none() {
                    named.source_dir = Some(at);
                    named.auto_assigned_source = true;
                }
            },
            Slot::Source => {
                named.source_dir = Some(at);
                named.auto_assigned_source = false;
            },
            Slot::Temp => {
                named.temp_dir = Some(at);
            },
            Slot::Program => {
                named.program = Some(at);
            },
        }
        named
    }

    fn first_vacant(&self) -> (slot: Option<Slot>)
        ensures
            slot == self.vacant(),
    {
        if self.target_dir.is_none() {
            Some(Slot::Target)
        } else if self.source_dir.is_none() || self.auto_assigned_source {
            Some(Slot::Source)
        } else if self.temp_dir.is_none() {
            Some(Slot::Temp)
        } else if self.program.is_none() {
            Some(Slot::Program)
        } else {
            None
        }
    }

    fn named_path(&self, slot: Slot, at: usize, count: usize) -> (taken: Taken)
        requires
            at < count,
        ensures
            taken == self.take_named(slot, at, count as nat),
    {
        let warning = if self.is_taken(slot) {
            Some(Warning::Reassigned(slot))
        } else {
            None
        };
        if at + 1 < count {
            Taken { named: self.with(slot, at + 1), warning, end: None, took_next: true }
        } else {
            Taken { named: *self, warning, end: Some(End::Missing(slot)), took_next: false }
        }
    }

    /// What the argument at `at` of `count`, read as `word`, does.
    fn absorb(&self, word: Word, at: usize, count: usize) -> (taken: Taken)
        requires
            at < count,
        ensures
            taken == self.take(word, at, count as nat),
    {
        match word {
            Word::Target => self.named_path(Slot::Target, at, count),
            Word::Source => self.named_path(Slot::Source, at, count),
            Word::Temp => self.named_path(Slot::Temp, at, count),
            Word::Program => self.named_path(Slot::Program, at, count),
            Word::Exhaustive => {
                let mut named = *self;
                named.exhaustive = true;
                Taken { named, warning: None, end: None, took_next: false }
            },
            Word::Dummy => {
                let mut named = *self;
                named.dummy_mode = true;
                Taken { named, warning: None, end: None, took_next: false }
            },
            Word::AutoRecover => {
                let mut named = *self;
                named.auto_recover = true;
                Taken { named, warning: None, end: None, took_next: false }
            },
            Word::Help => Taken {
                named: *self,
                warning: None,
                end: Some(End::Help),
                took_next: false,
            },
            Word::Plain => match self.first_vacant() {
                Some(slot) => Taken {
                    named: self.with(slot, at),
                    warning: None,
                    end: None,
                    took_next: false,
                },
                None => Taken {
                    named: *self,
                    warning: Some(Warning::Unused(at)),
                    end: None,
                    took_next: false,
                },
            },
        }
    }
}

/// Reads the command line, the program's own name left out.
///
/// The arguments are gone through from the first. The reading ends after
/// the last of them, or at a call for help, or at the name of a path that
/// nothing follows. It holds what was set up to there and the warnings up
/// to there.
pub fn read_arguments(arguments: &Vec<String>) -> (reading: Reading)
    ensures
        reading@ == read(texts(arguments@)),
{
    let count = arguments.len();
    let ghost all = texts(arguments@);
    let mut named = Named::new();
    let mut warnings: Vec<Warning> = Vec::new();
    let mut at: usize = 0;
    while at < count
        invariant
            count == arguments@.len(),
            all == texts(arguments@),
            at <= count,
            read_from(all, at as nat, named, warnings@) == read(all),
        decreases count - at,
    {
        let taken = named.absorb(word(arguments[at].as_str()), at, count);
        match taken.warning {
            Some(warning) => {
                warnings.push(warning);
            },
            None => {},
        }
        match taken.end {
            Some(end) => {
                return Reading { named: taken.named, warnings, end };
            },
            None => {
                named = taken.named;
                at = if taken.took_next {
                    at + 2
                } else {
                    at + 1
                };
            },
        }
    }
    Reading { named, warnings, end: End::Complete }
}

} // verus!
