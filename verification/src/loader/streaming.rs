//! A parser that takes a module in chunks.
//!
//! Each chunk is appended to what came before and the whole is parsed again:
//! a parse that stops at the end of the data asks for more, any other error
//! is reported, and a complete parse makes the module available.

use super::parser::{module_model, parse_spec, ModuleModel, Parsed, Parser};
use crate::runtime::error::WasmError;
use crate::runtime::module::Module;
use vstd::prelude::*;
use vstd::string::StrSliceExecFns;

verus! {

#[derive(Debug, Clone, Copy, PartialEq, Eq, Structural)]
/// How far a streaming parse has come.
pub enum ParseState {
    /// The data so far is a whole module.
    Complete,
    /// The data so far ends inside the module.
    NeedMoreData,
}

/// Whether `needle` occurs in `hay`.
pub open spec fn has_text(hay: Seq<char>, needle: Seq<char>) -> bool {
    exists|i: int| 0 <= i && i + needle.len() <= hay.len() && #[trigger] hay.subrange(i, i + needle.len()) == needle
}

/// Whether a parse error only says that the data ended too soon.
pub open spec fn is_incomplete(msg: Seq<char>) -> bool {
    has_text(msg, "unexpected end"@)
}

/// Returns whether `needle` occurs in `hay`.
fn contains_text(hay: &str, needle: &str) -> (b: bool)
    ensures
        b == has_text(hay@, needle@),
{
    let h = hay.unicode_len();
    let n = needle.unicode_len();
    if n > h {
        return false;
    }
    let mut i: usize = 0;
    while i <= h - n
        invariant
            h == hay@.len(),
            n == needle@.len(),
            n <= h,
            forall|k: int| 0 <= k < i ==> #[trigger] hay@.subrange(k, k + n) != needle@,
        decreases h - n + 1 - i,
    {
        let mut j: usize = 0;
        let mut same = true;
        while j < n
            invariant
                h == hay@.len(),
                n == needle@.len(),
                i + n <= h,
                j <= n,
                same == (forall|t: int| 0 <= t < j ==> #[trigger] hay@[i + t] == needle@[t]),
            decreases n - j,
        {
            if hay.get_char(i + j) != needle.get_char(j) {
                same = false;
            }
            j = j + 1;
        }
        if same {
            proof {
                assert forall|t: int| 0 <= t < n implies hay@.subrange(i as int, i + n)[t] == needle@[t] by {
                    assert(hay@[i + t] == needle@[t]);
                }
                assert(hay@.subrange(i as int, i + n) =~= needle@);
            }
            return true;
        }
        proof {
            let t = choose|t: int| 0 <= t < n && #[trigger] hay@[i + t] != needle@[t];
            assert(hay@.subrange(i as int, i + n)[t] == hay@[i + t]);
            assert(hay@.subrange(i as int, i + n)[t] != needle@[t]);
        }
        i = i + 1;
    }
    proof {
        assert forall|k: int| 0 <= k && k + n <= h implies #[trigger] hay@.subrange(k, k + n) != needle@ by {
            assert(k < i);
        }
    }
    false
}

/// Returns whether a parse error only says that the data ended too soon.
fn is_incomplete_input(error: &WasmError) -> (b: bool)
    ensures
        b == (error matches WasmError::Load(m) && is_incomplete(m@)),
{
    match error {
        WasmError::Load(message) => contains_text(message.as_str(), "unexpected end"),
        _ => false,
    }
}

/// A parser fed a module in chunks.
pub struct StreamingParser {
    buffer: Vec<u8>,
    module: Option<Module>,
    parser: Parser,
}

impl StreamingParser {
    /// The data received so far.
    pub closed spec fn buffer(&self) -> Seq<u8> {
        self.buffer@
    }

    /// The module parsed from the data so far, if it is whole.
    pub closed spec fn current(&self) -> Option<ModuleModel> {
        match self.module {
            Some(m) => Some(module_model(m)),
            None => None,
        }
    }

    /// Creates a parser with no data.
    pub fn new() -> (p: Self)
        ensures
            p.buffer() == Seq::<u8>::empty(),
            p.current() is None,
    {
        Self { buffer: Vec::new(), module: None, parser: Parser::new() }
    }

    /// Appends a chunk and parses the data received so far.
    pub fn parse_chunk(&mut self, data: &[u8]) -> (r: Result<ParseState, WasmError>)
        requires
            !(parse_spec(old(self).buffer() + data@) is Panic),
        ensures
            final(self).buffer() == old(self).buffer() + data@,
            match parse_spec(final(self).buffer()) {
                Parsed::Got(mm, _) => r == Ok::<ParseState, WasmError>(ParseState::Complete)
                    && final(self).current() == Some(mm),
                Parsed::Fail(e) => final(self).current() is None && if is_incomplete(e) {
                    r == Ok::<ParseState, WasmError>(ParseState::NeedMoreData)
                } else {
                    r matches Err(WasmError::Load(x)) && x@ == e
                },
                Parsed::Panic => false,
            },
    {
        let mut i: usize = 0;
        while i < data.len()
            invariant
                0 <= i <= data@.len(),
                self.buffer@ == old(self).buffer() + data@.subrange(0, i as int),
            decreases data@.len() - i,
        {
            self.buffer.push(data[i]);
            i = i + 1;
            proof {
                assert(self.buffer@ =~= old(self).buffer() + data@.subrange(0, i as int));
            }
        }
        proof {
            assert(data@.subrange(0, data@.len() as int) =~= data@);
        }
        match self.parser.parse(self.buffer.as_slice()) {
            Ok(module) => {
                self.module = Some(module);
                Ok(ParseState::Complete)
            },
            Err(error) => {
                self.module = None;
                if is_incomplete_input(&error) {
                    Ok(ParseState::NeedMoreData)
                } else {
                    Err(error)
                }
            },
        }
    }

    /// Returns the parsed module, if the data so far is whole.
    pub fn module(&self) -> (m: Option<&Module>)
        ensures
            match m {
                Some(x) => self.current() == Some(module_model(*x)),
                None => self.current() is None,
            },
    {
        self.module.as_ref()
    }

    /// Returns the parsed module, if the data so far is whole.
    pub fn into_module(self) -> (m: Option<Module>)
        ensures
            match m {
                Some(x) => self.current() == Some(module_model(x)),
                None => self.current() is None,
            },
    {
        self.module
    }
}

impl Default for StreamingParser {
    fn default() -> (p: Self)
        ensures
            p.buffer() == Seq::<u8>::empty(),
            p.current() is None,
    {
        Self::new()
    }
}

} // verus!
