//! The flags of `join-pane` and `move-pane`: `-b`, `-d`, `-f`, one of
//! `-h`/`-v`, one of `-l size`/`-p percentage`, `-s source` and
//! `-t target`, up to `--` or the first other word. Both commands take the
//! same flags. Sizes and targets are handed on as written, for the caller
//! to parse and resolve.

use vstd::prelude::*;

use crate::ansi::str_eq;
use vstd::string::StringExecFns;

verus! {

/// How the moved pane is split off.
#[derive(Debug, Clone, Copy, PartialEq, Eq, Structural)]
pub enum SplitDirection {
    Horizontal,
    Vertical,
}

/// A size as written: cells, or a percentage (the `%` of `-l` dropped).
#[derive(Debug, Clone, PartialEq, Eq)]
pub enum SizeArg {
    Absolute(String),
    Percentage(String),
}

/// What the flags say.
#[derive(Debug, Clone, PartialEq, Eq)]
pub struct JoinMoveFlags {
    pub detached: bool,
    pub before: bool,
    pub full_size: bool,
    pub direction: SplitDirection,
    pub size: Option<SizeArg>,
    pub source: Option<String>,
    pub target: Option<String>,
    /// Where the words after the flags begin.
    pub rest: usize,
}

/// A flag that needs a value.
#[derive(Debug, Clone, Copy, PartialEq, Eq, Structural)]
pub enum ValueFlag {
    Length,
    Percentage,
    Source,
    Target,
}

/// Why the flags are refused.
#[derive(Debug, Clone, Copy, PartialEq, Eq, Structural)]
pub enum JoinMoveError {
    /// Both `-h` and `-v`, or one of them twice.
    DirectionTwice,
    /// Both `-l` and `-p`, or one of them twice.
    SizeTwice,
    /// A flag that needs a value ends the words.
    MissingValue(ValueFlag),
}

/// The plain value of the flags.
pub struct FlagsView {
    pub detached: bool,
    pub before: bool,
    pub full_size: bool,
    pub horizontal: bool,
    pub direction_set: bool,
    /// The size: whether it is a percentage, and its text.
    pub size: Option<(bool, Seq<char>)>,
    pub source: Option<Seq<char>>,
    pub target: Option<Seq<char>>,
    pub rest: int,
}

/// No flag seen yet.
pub open spec fn no_flags() -> FlagsView {
    FlagsView {
        detached: false,
        before: false,
        full_size: false,
        horizontal: false,
        direction_set: false,
        size: None,
        source: None,
        target: None,
        rest: 0,
    }
}

/// `-l`'s size: a percentage when it ends in `%` (which is dropped), else
/// cells.
pub open spec fn length_size(v: Seq<char>) -> (bool, Seq<char>) {
    if v.len() > 0 && v.last() == '%' {
        (true, v.drop_last())
    } else {
        (false, v)
    }
}

/// The flags read from position `i` on, having read `f` before it.
pub open spec fn parse_from(w: Seq<Seq<char>>, i: int, f: FlagsView) -> Result<FlagsView, JoinMoveError>
    decreases w.len() - i,
{
    if i < 0 || i >= w.len() {
        Ok(FlagsView { rest: i, ..f })
    } else {
        let t = w[i];
        let has_value = i + 1 < w.len();
        if t == "--"@ {
            Ok(FlagsView { rest: i + 1, ..f })
        } else if t == "-b"@ {
            parse_from(w, i + 1, FlagsView { before: true, ..f })
        } else if t == "-d"@ {
            parse_from(w, i + 1, FlagsView { detached: true, ..f })
        } else if t == "-f"@ {
            parse_from(w, i + 1, FlagsView { full_size: true, ..f })
        } else if t == "-h"@ || t == "-v"@ {
            if f.direction_set {
                Err(JoinMoveError::DirectionTwice)
            } else {
                parse_from(w, i + 1, FlagsView { horizontal: t == "-h"@, direction_set: true, ..f })
            }
        } else if t == "-l"@ || t == "-p"@ {
            if f.size is Some {
                Err(JoinMoveError::SizeTwice)
            } else if !has_value {
                Err(
                    JoinMoveError::MissingValue(
                        if t == "-l"@ {
                            ValueFlag::Length
                        } else {
                            ValueFlag::Percentage
                        },
                    ),
                )
            } else {
                let size = if t == "-l"@ {
                    length_size(w[i + 1])
                } else {
                    (true, w[i + 1])
                };
                parse_from(w, i + 2, FlagsView { size: Some(size), ..f })
            }
        } else if t == "-s"@ {
            if !has_value {
                Err(JoinMoveError::MissingValue(ValueFlag::Source))
            } else {
                parse_from(w, i + 2, FlagsView { source: Some(w[i + 1]), ..f })
            }
        } else if t == "-t"@ {
            if !has_value {
                Err(JoinMoveError::MissingValue(ValueFlag::Target))
            } else {
                parse_from(w, i + 2, FlagsView { target: Some(w[i + 1]), ..f })
            }
        } else {
            Ok(FlagsView { rest: i, ..f })
        }
    }
}

/// The plain value of parsed flags.
pub open spec fn flags_view(f: JoinMoveFlags) -> FlagsView {
    FlagsView {
        detached: f.detached,
        before: f.before,
        full_size: f.full_size,
        horizontal: f.direction == SplitDirection::Horizontal,
        direction_set: false,
        size: match f.size {
            Some(SizeArg::Absolute(v)) => Some((false, v@)),
            Some(SizeArg::Percentage(v)) => Some((true, v@)),
            None => None,
        },
        source: match f.source {
            Some(s) => Some(s@),
            None => None,
        },
        target: match f.target {
            Some(t) => Some(t@),
            None => None,
        },
        rest: f.rest as int,
    }
}

/// Two flag readings that agree on what the parsed flags hold.
pub open spec fn same_flags(a: FlagsView, b: FlagsView) -> bool {
    a.detached == b.detached && a.before == b.before && a.full_size == b.full_size && a.horizontal
        == b.horizontal && a.size == b.size && a.source == b.source && a.target == b.target && a.rest == b.rest
}

/// Calls `str::strip_suffix` with `'%'`. Trusted: as std documents it, the
/// string without a final `%`, or nothing when it does not end in one.
#[verifier::external_body]
fn strip_percent(s: &str) -> (r: Option<&str>)
    ensures
        r matches Some(x) ==> s@.len() > 0 && s@.last() == '%' && x@ == s@.drop_last(),
        r is None ==> !(s@.len() > 0 && s@.last() == '%'),
{
    s.strip_suffix('%')
}

/// The words of a list of strings.
pub open spec fn words(tokens: Seq<String>) -> Seq<Seq<char>> {
    tokens.map_values(|t: String| t@)
}

/// Reads the flags of `join-pane` or `move-pane` from the command's words.
#[verifier::rlimit(80)]
pub fn parse_join_move_flags(tokens: &Vec<String>) -> (r: Result<JoinMoveFlags, JoinMoveError>)
    ensures
        match (r, parse_from(words(tokens@), 0, no_flags())) {
            (Ok(f), Ok(v)) => same_flags(flags_view(f), v),
            (Err(e), Err(d)) => e == d,
            _ => false,
        },
{
    let ghost w = words(tokens@);
    let mut detached = false;
    let mut before = false;
    let mut full_size = false;
    let mut direction = SplitDirection::Vertical;
    let mut direction_set = false;
    let mut size: Option<SizeArg> = None;
    let mut source: Option<String> = None;
    let mut target: Option<String> = None;
    let mut i: usize = 0;
    let ghost mut acc = no_flags();
    while i < tokens.len()
        invariant
            w == words(tokens@),
            i <= tokens@.len(),
            acc.detached == detached,
            acc.before == before,
            acc.full_size == full_size,
            acc.direction_set == direction_set,
            acc.horizontal == (direction == SplitDirection::Horizontal),
            acc.size == match size {
                Some(SizeArg::Absolute(v)) => Some((false, v@)),
                Some(SizeArg::Percentage(v)) => Some((true, v@)),
                None => None::<(bool, Seq<char>)>,
            },
            acc.source == match source {
                Some(s) => Some(s@),
                None => None::<Seq<char>>,
            },
            acc.target == match target {
                Some(t) => Some(t@),
                None => None::<Seq<char>>,
            },
            parse_from(w, 0, no_flags()) == parse_from(w, i as int, acc),
        decreases tokens@.len() - i,
    {
        let t = tokens[i].as_str();
        assert(w[i as int] == t@);
        let has_value = i + 1 < tokens.len();
        if has_value {
            assert(w[i + 1] == tokens@[i + 1]@);
        }
        if str_eq(t, "--") {
            i = i + 1;
            proof {
                acc = FlagsView { rest: i as int, ..acc };
            }
            return Ok(JoinMoveFlags { detached, before, full_size, direction, size, source, target, rest: i });
        } else if str_eq(t, "-b") {
            before = true;
            proof {
                acc = FlagsView { before: true, ..acc };
            }
            i = i + 1;
        } else if str_eq(t, "-d") {
            detached = true;
            proof {
                acc = FlagsView { detached: true, ..acc };
            }
            i = i + 1;
        } else if str_eq(t, "-f") {
            full_size = true;
            proof {
                acc = FlagsView { full_size: true, ..acc };
            }
            i = i + 1;
        } else if str_eq(t, "-h") || str_eq(t, "-v") {
            if direction_set {
                return Err(JoinMoveError::DirectionTwice);
            }
            let horizontal = str_eq(t, "-h");
            direction = if horizontal {
                SplitDirection::Horizontal
            } else {
                SplitDirection::Vertical
            };
            direction_set = true;
            proof {
                acc = FlagsView { horizontal: horizontal, direction_set: true, ..acc };
            }
            i = i + 1;
        } else if str_eq(t, "-l") || str_eq(t, "-p") {
            if size.is_some() {
                return Err(JoinMoveError::SizeTwice);
            }
            let is_length = str_eq(t, "-l");
            if !has_value {
                return Err(
                    JoinMoveError::MissingValue(
                        if is_length {
                            ValueFlag::Length
                        } else {
                            ValueFlag::Percentage
                        },
                    ),
                );
            }
            let v = tokens[i + 1].as_str();
            let next = if is_length {
                match strip_percent(v) {
                    Some(p) => SizeArg::Percentage(p.to_owned()),
                    None => SizeArg::Absolute(v.to_owned()),
                }
            } else {
                SizeArg::Percentage(v.to_owned())
            };
            proof {
                let sz = if is_length {
                    length_size(w[i + 1])
                } else {
                    (true, w[i + 1])
                };
                acc = FlagsView { size: Some(sz), ..acc };
            }
            size = Some(next);
            i = i + 2;
        } else if str_eq(t, "-s") {
            if !has_value {
                return Err(JoinMoveError::MissingValue(ValueFlag::Source));
            }
            source = Some(tokens[i + 1].clone());
            proof {
                acc = FlagsView { source: Some(w[i + 1]), ..acc };
            }
            i = i + 2;
        } else if str_eq(t, "-t") {
            if !has_value {
                return Err(JoinMoveError::MissingValue(ValueFlag::Target));
            }
            target = Some(tokens[i + 1].clone());
            proof {
                acc = FlagsView { target: Some(w[i + 1]), ..acc };
            }
            i = i + 2;
        } else {
            proof {
                acc = FlagsView { rest: i as int, ..acc };
            }
            return Ok(JoinMoveFlags { detached, before, full_size, direction, size, source, target, rest: i });
        }
    }
    proof {
        acc = FlagsView { rest: i as int, ..acc };
    }
    Ok(JoinMoveFlags { detached, before, full_size, direction, size, source, target, rest: i })
}

/// What `command` answers for a refused flag pair; a missing value is
/// reported by the reader of the words.
pub open spec fn spec_join_move_message(command: Seq<char>, e: JoinMoveError) -> Option<Seq<char>> {
    match e {
        JoinMoveError::DirectionTwice => Some(command + " accepts only one of -h or -v"@),
        JoinMoveError::SizeTwice => Some(command + " accepts only one of -l or -p"@),
        JoinMoveError::MissingValue(_) => None,
    }
}

/// The message of a refused flag pair of `command`.
pub fn join_move_message(command: &str, e: JoinMoveError) -> (m: Option<String>)
    ensures
        match m {
            Some(x) => spec_join_move_message(command@, e) == Some(x@),
            None => spec_join_move_message(command@, e) is None,
        },
{
    match e {
        JoinMoveError::DirectionTwice => {
            let mut out = command.to_owned();
            out.append(" accepts only one of -h or -v");
            Some(out)
        },
        JoinMoveError::SizeTwice => {
            let mut out = command.to_owned();
            out.append(" accepts only one of -l or -p");
            Some(out)
        },
        JoinMoveError::MissingValue(_) => None,
    }
}

} // verus!
