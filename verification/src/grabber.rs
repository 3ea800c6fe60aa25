//! Picking the input device and classifying its raw events.
//!
//! Reading the device is left to the surrounding program; this module
//! holds the decisions involved: which path to open, given an ordered
//! candidate list and a compiled name pattern, and what kind of keypress
//! a raw event value stands for.

use vstd::prelude::*;
use crate::keydata::KeyKind;

verus! {

#[verifier::external_type_specification]
#[verifier::external_body]
pub struct ExRegex(regex::Regex);

#[verifier::external_type_specification]
#[verifier::external_body]
pub struct ExRegexError(regex::Error);

/// Whether the regular expression `pattern` matches anywhere in `text`.
/// The name stands for what `regex::Regex::is_match` returns; nothing
/// here says which texts match.
pub uninterp spec fn regex_match(pattern: Seq<char>, text: Seq<char>) -> bool;

/// The device-name pattern could not be compiled.
#[derive(Clone, Copy, Debug, PartialEq, Eq, Structural)]
pub enum PatternError {
    Invalid,
}

/// A compiled device-name pattern, kept together with its pattern text so
/// that contracts can speak of what it was compiled from.
pub struct Matcher {
    re: regex::Regex,
    pattern: String,
}

impl Matcher {
    /// The pattern this matcher was compiled from.
    pub closed spec fn pattern(self) -> Seq<char> {
        self.pattern@
    }

    /// Relies on `regex::Regex::new`: compiles `pattern`, and fails on an
    /// invalid pattern or one beyond the default size limit.
    #[verifier::external_body]
    fn compile(pattern: &str) -> (r: Result<Matcher, regex::Error>)
        ensures
            r matches Ok(m) ==> m.pattern() == pattern@,
    {
        match regex::Regex::new(pattern) {
            Ok(re) => Ok(Matcher { re, pattern: pattern.to_owned() }),
            Err(e) => Err(e),
        }
    }

    /// Compile a device-name pattern; `Err` reports one the regular
    /// expression engine rejects.
    pub fn new(pattern: &str) -> (r: Result<Matcher, PatternError>)
        ensures
            r matches Ok(m) ==> m.pattern() == pattern@,
    {
        match Self::compile(pattern) {
            Ok(m) => Ok(m),
            Err(_) => Err(PatternError::Invalid),
        }
    }

    /// Relies on `regex::Regex::is_match`: true exactly when the compiled
    /// pattern matches somewhere in `text`.
    #[verifier::external_body]
    pub(crate) fn is_match(&self, text: &str) -> (b: bool)
        ensures
            b == regex_match(self.pattern(), text@),
    {
        self.re.is_match(text)
    }
}

/// The path the source should open, out of an ordered candidate list:
/// the last one the pattern matches, if any.
pub open spec fn last_match(paths: Seq<String>, pattern: Seq<char>) -> Option<String>
    decreases paths.len(),
{
    if paths.len() == 0 {
        None
    } else if regex_match(pattern, paths.last()@) {
        Some(paths.last())
    } else {
        last_match(paths.drop_last(), pattern)
    }
}

/// The event source's device selection: an operator-supplied path wins;
/// otherwise a keyboard-looking path is picked from the candidates.
pub struct InputGrabber {
    pub input_path: Option<String>,
}

impl InputGrabber {
    pub fn new(input_path: Option<String>) -> (g: InputGrabber)
        ensures
            g.input_path == input_path,
    {
        InputGrabber { input_path }
    }

    /// The path to open: the operator's explicit choice when one was
    /// given, otherwise the last candidate the matcher accepts.
    pub fn choose_path(&self, candidates: &Vec<String>, m: &Matcher) -> (r: Option<String>)
        ensures
            self.input_path matches Some(p) ==> r == Some(p),
            self.input_path is None ==> r == last_match(candidates@, m.pattern()),
    {
        match &self.input_path {
            Some(p) => Some(p.clone()),
            None => {
                let mut i: usize = candidates.len();
                proof {
                    assert(candidates@.take(i as int) =~= candidates@);
                }
                while i > 0
                    invariant
                        self.input_path is None,
                        i <= candidates.len(),
                        last_match(candidates@, m.pattern()) == last_match(
                            candidates@.take(i as int),
                            m.pattern(),
                        ),
                    decreases i,
                {
                    i = i - 1;
                    let ghost prefix = candidates@.take(i + 1);
                    proof {
                        assert(prefix.last() == candidates@[i as int]);
                        assert(prefix.drop_last() =~= candidates@.take(i as int));
                    }
                    if m.is_match(candidates[i].as_str()) {
                        proof {
                            assert(last_match(candidates@, m.pattern()) == Some(
                                candidates@[i as int],
                            ));
                        }
                        return Some(candidates[i].clone());
                    }
                }
                proof {
                    assert(candidates@.take(0) =~= Seq::<String>::empty());
                }
                None
            },
        }
    }
}

/// The aggregator's reading of one raw device event: a key event with
/// value 1 is a discrete press, with value 2 a key-repeat; key releases
/// (value 0), other values and non-key events yield nothing.
pub fn classify_event(is_key: bool, value: i32) -> (r: Option<KeyKind>)
    ensures
        r == (if is_key && value == 1 {
            Some(KeyKind::Single)
        } else if is_key && value == 2 {
            Some(KeyKind::Hold)
        } else {
            None::<KeyKind>
        }),
{
    if is_key && value == 1 {
        Some(KeyKind::Single)
    } else if is_key && value == 2 {
        Some(KeyKind::Hold)
    } else {
        None
    }
}

} // verus!
