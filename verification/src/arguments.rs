//! The outcome of classifying a command line.

use crate::text::{equals, chars_of, option_view, views};
use vstd::prelude::*;

verus! {

/// The kinds of file a compilation writes.
#[derive(Debug, Clone, Copy, PartialEq, Eq, Hash, Structural)]
pub enum OutputKind {
    /// The object file.
    Object,
    /// The debug-symbols database.
    DebugSymbols,
}

impl OutputKind {
    /// The short name of the kind.
    pub open spec fn spec_name(self) -> Seq<char> {
        match self {
            OutputKind::Object => "obj"@,
            OutputKind::DebugSymbols => "pdb"@,
        }
    }

    /// The kind with the given short name.
    pub open spec fn spec_from_name(name: Seq<char>) -> Option<OutputKind> {
        if name == "obj"@ {
            Some(OutputKind::Object)
        } else if name == "pdb"@ {
            Some(OutputKind::DebugSymbols)
        } else {
            None
        }
    }

    /// The short name of the kind: `obj` or `pdb`.
    pub fn name(self) -> (r: &'static str)
        ensures
            r@ == self.spec_name(),
    {
        match self {
            OutputKind::Object => "obj",
            OutputKind::DebugSymbols => "pdb",
        }
    }

    /// The kind with the given short name, if there is one.
    pub fn from_name(name: &str) -> (r: Option<OutputKind>)
        ensures
            r == Self::spec_from_name(name@),
    {
        let chars = chars_of(name);
        if equals(&chars, "obj") {
            Some(OutputKind::Object)
        } else if equals(&chars, "pdb") {
            Some(OutputKind::DebugSymbols)
        } else {
            None
        }
    }
}

/// The files a compilation writes, at most one of each kind.
#[derive(Debug, Clone, PartialEq, Eq)]
pub struct Outputs {
    pub object: Option<String>,
    pub debug_symbols: Option<String>,
}

/// The map with an entry for each of the two paths that is present.
pub open spec fn outputs_map(
    object: Option<Seq<char>>,
    debug_symbols: Option<Seq<char>>,
) -> Map<OutputKind, Seq<char>> {
    let with_object = match object {
        Some(path) => Map::empty().insert(OutputKind::Object, path),
        None => Map::empty(),
    };
    match debug_symbols {
        Some(path) => with_object.insert(OutputKind::DebugSymbols, path),
        None => with_object,
    }
}

impl View for Outputs {
    type V = Map<OutputKind, Seq<char>>;

    open spec fn view(&self) -> Map<OutputKind, Seq<char>> {
        outputs_map(option_view(self.object), option_view(self.debug_symbols))
    }
}

impl Outputs {
    /// No outputs.
    pub fn new() -> (r: Outputs)
        ensures
            r@ == Map::<OutputKind, Seq<char>>::empty(),
    {
        Outputs { object: None, debug_symbols: None }
    }

    /// Records `path` under `kind`, replacing an earlier path of that kind.
    pub fn insert(&mut self, kind: OutputKind, path: String)
        ensures
            final(self)@ == old(self)@.insert(kind, path@),
    {
        match kind {
            OutputKind::Object => {
                self.object = Some(path);
            },
            OutputKind::DebugSymbols => {
                self.debug_symbols = Some(path);
            },
        }
        assert(self@ =~= old(self)@.insert(kind, path@));
    }

    /// The path recorded under `kind`.
    pub fn get(&self, kind: OutputKind) -> (r: Option<&String>)
        ensures
            r is Some <==> self@.dom().contains(kind),
            r matches Some(path) ==> path@ == self@[kind],
    {
        match kind {
            OutputKind::Object => self.object.as_ref(),
            OutputKind::DebugSymbols => self.debug_symbols.as_ref(),
        }
    }

    /// How many outputs are recorded.
    pub fn len(&self) -> (r: usize)
        ensures
            r == self@.dom().len(),
            self@.dom().finite(),
    {
        let object: usize = if self.object.is_some() { 1 } else { 0 };
        let debug_symbols: usize = if self.debug_symbols.is_some() { 1 } else { 0 };
        proof {
            let empty = Map::<OutputKind, Seq<char>>::empty();
            assert(empty.dom() =~= Set::<OutputKind>::empty());
            let none = Set::<OutputKind>::empty();
            if self.object is None && self.debug_symbols is None {
                assert(self@.dom() =~= none);
            } else if self.debug_symbols is None {
                assert(self@.dom() =~= none.insert(OutputKind::Object));
            } else if self.object is None {
                assert(self@.dom() =~= none.insert(OutputKind::DebugSymbols));
            } else {
                assert(self@.dom() =~= none.insert(OutputKind::Object).insert(
                    OutputKind::DebugSymbols,
                ));
            }
        }
        object + debug_symbols
    }
}

/// The parts of a command line that the later stages read.
#[derive(Debug, Clone, PartialEq, Eq)]
pub struct ParsedArguments {
    /// The source file.
    pub input: String,
    /// The extension of the source file, without its dot.
    pub extension: String,
    /// Where to write a dependency file, if one was asked for.
    pub depfile: Option<String>,
    /// The files the compilation writes.
    pub outputs: Outputs,
    /// Arguments for the preprocessor alone; this driver has none.
    pub preprocessor_args: Vec<String>,
    /// The flags handed on to the compiler as they came.
    pub common_args: Vec<String>,
}

/// The text of a [`ParsedArguments`].
pub struct ParsedView {
    pub input: Seq<char>,
    pub extension: Seq<char>,
    pub depfile: Option<Seq<char>>,
    pub outputs: Map<OutputKind, Seq<char>>,
    pub preprocessor_args: Seq<Seq<char>>,
    pub common_args: Seq<Seq<char>>,
}

impl View for ParsedArguments {
    type V = ParsedView;

    open spec fn view(&self) -> ParsedView {
        ParsedView {
            input: self.input@,
            extension: self.extension@,
            depfile: option_view(self.depfile),
            outputs: self.outputs@,
            preprocessor_args: views(self.preprocessor_args@),
            common_args: views(self.common_args@),
        }
    }
}

impl ParsedView {
    /// What every successful classification yields: an object output and
    /// no preprocessor arguments.
    pub open spec fn well_formed(self) -> bool {
        &&& self.outputs.dom().contains(OutputKind::Object)
        &&& self.preprocessor_args.len() == 0
    }
}

/// The verdict on a command line.
#[derive(Debug, Clone, PartialEq, Eq)]
pub enum CompilerArguments {
    /// A compilation whose result can be cached.
    Parsed(ParsedArguments),
    /// A compilation whose result cannot be cached.
    CannotCache,
    /// Not a compilation at all.
    NotCompilation,
}

/// The text of a [`CompilerArguments`].
pub enum Verdict {
    Parsed(ParsedView),
    CannotCache,
    NotCompilation,
}

impl View for CompilerArguments {
    type V = Verdict;

    open spec fn view(&self) -> Verdict {
        match self {
            CompilerArguments::Parsed(parsed) => Verdict::Parsed(parsed@),
            CompilerArguments::CannotCache => Verdict::CannotCache,
            CompilerArguments::NotCompilation => Verdict::NotCompilation,
        }
    }
}

} // verus!
