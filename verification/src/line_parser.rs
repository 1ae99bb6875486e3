//! The line parser of a profile: the definition compiled into an execution plan that
//! turns each line into a [`LineOutcome`]. Preview and import use the same code.

use vstd::prelude::*;

use crate::blocks::{blocks_outcome, BlocksParser};
use crate::error::EngineError;
use crate::model::{FormatProfile, Strategy, SCHEMA_VERSION};
use crate::record::LineOutcome;
use crate::text::{decimal, push_decimal, push_str, chars_to_string};
use crate::w3c::{next_fields, w3c_outcome, W3cHeaderState, W3cParser};

verus! {

/// The line parser made from a profile. The W3C parser keeps header state.
#[derive(Debug)]
pub enum LineParser {
    /// Block pattern parser.
    Blocks(BlocksParser),
    /// W3C extended log parser.
    W3c(W3cParser),
}

/// Parser `p` turns line `line_number` with text `line` into `r` and becomes `q`.
pub open spec fn parse_step(p: LineParser, q: LineParser, line_number: u64, line: Seq<char>, r: LineOutcome) -> bool {
    match p {
        LineParser::Blocks(b) => q == p && blocks_outcome(b.compiled_view(), b.timezone_view(), line_number, line, r),
        LineParser::W3c(w) => q matches LineParser::W3c(w2)
            && w3c_outcome(w.fields_view(), w.timezone_view(), line_number, line, r)
            && w2.fields_view() == next_fields(w.fields_view(), line)
            && w2.timezone_view() == w.timezone_view(),
    }
}

impl LineParser {
    /// Compiles a profile. Only the current definition schema version is accepted.
    pub fn from_profile(profile: &FormatProfile) -> (r: Result<LineParser, EngineError>)
        ensures
            profile.schema_version != SCHEMA_VERSION ==> (r matches Err(EngineError::Format(m))
                && m@ == "지원하지 않는 정의 스키마 버전 "@ + decimal(profile.schema_version as nat)),
            profile.schema_version == SCHEMA_VERSION ==> match profile.strategy {
                Strategy::W3c => r matches Ok(LineParser::W3c(p)) && p.fields_view().len() == 0
                    && p.timezone_view() == profile.timezone,
                Strategy::Blocks { blocks } => match crate::compile::compile_outcome(blocks@) {
                    Ok((pat, fs)) => r matches Ok(LineParser::Blocks(b)) && b.compiled_view().pattern_view() == pat
                        && crate::compile::same_fields(b.compiled_view().fields_view(), fs)
                        && b.timezone_view() == profile.timezone,
                    Err(f) => r matches Err(e) && crate::compile::fail_is(e, f),
                },
            },
    {
        if profile.schema_version != SCHEMA_VERSION {
            let mut v: Vec<char> = Vec::new();
            push_str(&mut v, "지원하지 않는 정의 스키마 버전 ");
            push_decimal(&mut v, profile.schema_version as u64);
            return Err(EngineError::Format(chars_to_string(&v)));
        }
        match &profile.strategy {
            Strategy::Blocks { blocks } => match BlocksParser::new(blocks.as_slice(), profile.timezone) {
                Ok(b) => Ok(LineParser::Blocks(b)),
                Err(e) => Err(e),
            },
            Strategy::W3c => Ok(LineParser::W3c(W3cParser::new(profile.timezone))),
        }
    }

    /// Parses one line (without its line break). Only a W3C parser changes, by a
    /// `#Fields` header.
    pub fn parse_line(&mut self, line_number: u64, line: &str) -> (r: LineOutcome)
        ensures
            parse_step(*old(self), *final(self), line_number, line@, r),
    {
        match self {
            LineParser::Blocks(p) => p.parse_line(line_number, line),
            LineParser::W3c(p) => p.parse_line(line_number, line),
        }
    }

    /// The header state to keep for a resume; `None` for a parser without state.
    pub fn header_state(&self) -> (r: Option<W3cHeaderState>)
        ensures
            match *self {
                LineParser::Blocks(_) => r is None,
                LineParser::W3c(p) => r matches Some(s) && crate::text::strings_view(s.fields@) == p.fields_view(),
            },
    {
        match self {
            LineParser::Blocks(_) => None,
            LineParser::W3c(p) => Some(p.header_state()),
        }
    }

    /// Restores the header state of a checkpoint; without one a W3C parser starts over.
    pub fn restore_header_state(&mut self, state: Option<W3cHeaderState>)
        ensures
            match *old(self) {
                LineParser::Blocks(_) => *final(self) == *old(self),
                LineParser::W3c(p) => *final(self) matches LineParser::W3c(q)
                    && q.timezone_view() == p.timezone_view()
                    && q.fields_view() == match state {
                        Some(s) => crate::text::strings_view(s.fields@),
                        None => Seq::<Seq<char>>::empty(),
                    },
            },
    {
        match self {
            LineParser::Blocks(_) => {},
            LineParser::W3c(p) => match state {
                Some(s) => p.restore_header_state(s),
                None => p.reset(),
            },
        }
    }
}

} // verus!
