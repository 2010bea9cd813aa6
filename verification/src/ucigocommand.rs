//! The `go` command's parameters, parsed from its whitespace-split tokens.

use vstd::prelude::*;

use vstd::string::StrSliceExecFns;

verus! {

/// Compare two string slices character by character.
pub fn str_eq(a: &str, b: &str) -> (r: bool)
    ensures
        r == (a@ == b@),
{
    let na = a.unicode_len();
    let nb = b.unicode_len();
    if na != nb {
        proof {
            assert(a@ != b@) by {
                if a@ == b@ {
                    assert(a@.len() == b@.len());
                }
            }
        }
        return false;
    }
    let mut i: usize = 0;
    while i < na
        invariant
            na == a@.len(),
            nb == b@.len(),
            na == nb,
            0 <= i <= na,
            forall|j: int| 0 <= j < i ==> a@[j] == b@[j],
        decreases na - i,
    {
        if a.get_char(i) != b.get_char(i) {
            proof {
                assert(a@[i as int] != b@[i as int]);
            }
            return false;
        }
        i = i + 1;
    }
    proof {
        assert(a@ =~= b@);
    }
    true
}

/// The exact mathematical value of the digit run `s[i..]` appended to the
/// partial value `acc`, or nothing if a non-digit appears.
pub open spec fn spec_parse_digits(s: Seq<char>, i: int, acc: int) -> Option<int>
    decreases s.len() - i,
{
    if i < 0 || i >= s.len() {
        Some(acc)
    } else if '0' <= s[i] && s[i] <= '9' {
        spec_parse_digits(s, i + 1, acc * 10 + (s[i] as int - '0' as int))
    } else {
        None
    }
}

proof fn lemma_parse_digits_lower(s: Seq<char>, i: int, acc: int)
    requires
        acc >= 0,
        spec_parse_digits(s, i, acc) is Some,
    ensures
        spec_parse_digits(s, i, acc).unwrap() >= acc,
    decreases s.len() - i,
{
    if !(i < 0 || i >= s.len()) && '0' <= s[i] && s[i] <= '9' {
        lemma_parse_digits_lower(s, i + 1, acc * 10 + (s[i] as int - '0' as int));
    }
}

/// What `str::parse::<i32>` returns on a token: an optional sign, then at
/// least one decimal digit, valued within the 32-bit range; anything else
/// is no number.
pub open spec fn spec_parse_i32(s: Seq<char>) -> Option<i32> {
    let (neg, start) = if s.len() > 0 && s[0] == '-' {
        (true, 1int)
    } else if s.len() > 0 && s[0] == '+' {
        (false, 1int)
    } else {
        (false, 0int)
    };
    if s.len() <= start {
        None
    } else {
        match spec_parse_digits(s, start, 0) {
            None => None,
            Some(v) => {
                let signed = if neg {
                    -v
                } else {
                    v
                };
                if i32::MIN <= signed <= i32::MAX {
                    Some(signed as i32)
                } else {
                    None
                }
            },
        }
    }
}

/// Parse a decimal 32-bit integer exactly as `str::parse::<i32>` does.
pub fn parse_i32(s: &str) -> (r: Option<i32>)
    ensures
        r == spec_parse_i32(s@),
{
    let n = s.unicode_len();
    let (neg, start): (bool, usize) = if n > 0 && s.get_char(0) == '-' {
        (true, 1)
    } else if n > 0 && s.get_char(0) == '+' {
        (false, 1)
    } else {
        (false, 0)
    };
    if n <= start {
        return None;
    }
    let mut acc: i64 = 0;
    let ghost mut macc: int = 0int;
    let mut overflowed: bool = false;
    let mut i: usize = start;
    while i < n
        invariant
            n == s@.len(),
            start < n,
            start <= i <= n,
            neg ==> s@.len() > 0 && s@[0] == '-' && start == 1,
            !neg && start == 1 ==> s@.len() > 0 && s@[0] == '+',
            start == 0 || start == 1,
            start == 0 ==> s@.len() == 0 || (s@[0] != '-' && s@[0] != '+'),
            0 <= macc,
            spec_parse_digits(s@, start as int, 0) == spec_parse_digits(s@, i as int, macc),
            !overflowed ==> acc == macc && acc <= 0x8000_0000,
            overflowed ==> macc > 0x8000_0000,
        decreases n - i,
    {
        let c = s.get_char(i);
        if !(c >= '0' && c <= '9') {
            return None;
        }
        let d: i64 = (c as u32 as i64) - ('0' as u32 as i64);
        let ghost macc0 = macc;
        proof {
            macc = macc0 * 10 + (s@[i as int] as int - '0' as int);
        }
        if overflowed {
            proof {
                assert(macc >= macc0 * 10);
            }
        } else {
            acc = acc * 10 + d;
            if acc > 0x8000_0000 {
                overflowed = true;
            }
        }
        i = i + 1;
    }
    if overflowed {
        proof {
            lemma_parse_digits_lower(s@, i as int, macc);
        }
        return None;
    }
    let v: i64 = if neg {
        -acc
    } else {
        acc
    };
    if v < i32::MIN as i64 || v > i32::MAX as i64 {
        return None;
    }
    Some(v as i32)
}

/// The parameters of a `go` command.
pub struct UCIGoCommand {
    pub ponder: Option<bool>,
    pub wtime: Option<i32>,
    pub btime: Option<i32>,
    pub winc: Option<i32>,
    pub binc: Option<i32>,
    pub movestogo: Option<i32>,
    pub depth: Option<i32>,
    pub nodes: Option<i32>,
    pub mate: Option<i32>,
    pub movetime: Option<i32>,
    pub infinite: Option<bool>,
}


/// The eleven keywords of a `go` line denote eleven different tokens.
proof fn lemma_go_keywords_distinct()
    ensures
        "ponder"@ != "wtime"@,
        "ponder"@ != "btime"@,
        "ponder"@ != "winc"@,
        "ponder"@ != "binc"@,
        "ponder"@ != "movestogo"@,
        "ponder"@ != "depth"@,
        "ponder"@ != "nodes"@,
        "ponder"@ != "mate"@,
        "ponder"@ != "movetime"@,
        "ponder"@ != "infinite"@,
        "wtime"@ != "btime"@,
        "wtime"@ != "winc"@,
        "wtime"@ != "binc"@,
        "wtime"@ != "movestogo"@,
        "wtime"@ != "depth"@,
        "wtime"@ != "nodes"@,
        "wtime"@ != "mate"@,
        "wtime"@ != "movetime"@,
        "wtime"@ != "infinite"@,
        "btime"@ != "winc"@,
        "btime"@ != "binc"@,
        "btime"@ != "movestogo"@,
        "btime"@ != "depth"@,
        "btime"@ != "nodes"@,
        "btime"@ != "mate"@,
        "btime"@ != "movetime"@,
        "btime"@ != "infinite"@,
        "winc"@ != "binc"@,
        "winc"@ != "movestogo"@,
        "winc"@ != "depth"@,
        "winc"@ != "nodes"@,
        "winc"@ != "mate"@,
        "winc"@ != "movetime"@,
        "winc"@ != "infinite"@,
        "binc"@ != "movestogo"@,
        "binc"@ != "depth"@,
        "binc"@ != "nodes"@,
        "binc"@ != "mate"@,
        "binc"@ != "movetime"@,
        "binc"@ != "infinite"@,
        "movestogo"@ != "depth"@,
        "movestogo"@ != "nodes"@,
        "movestogo"@ != "mate"@,
        "movestogo"@ != "movetime"@,
        "movestogo"@ != "infinite"@,
        "depth"@ != "nodes"@,
        "depth"@ != "mate"@,
        "depth"@ != "movetime"@,
        "depth"@ != "infinite"@,
        "nodes"@ != "mate"@,
        "nodes"@ != "movetime"@,
        "nodes"@ != "infinite"@,
        "mate"@ != "movetime"@,
        "mate"@ != "infinite"@,
        "movetime"@ != "infinite"@,
{
    reveal_strlit("ponder");
    reveal_strlit("wtime");
    reveal_strlit("btime");
    reveal_strlit("winc");
    reveal_strlit("binc");
    reveal_strlit("movestogo");
    reveal_strlit("depth");
    reveal_strlit("nodes");
    reveal_strlit("mate");
    reveal_strlit("movetime");
    reveal_strlit("infinite");
    assert("ponder"@.len() == 6);
    assert("ponder"@[0] == 'p');
    assert("wtime"@.len() == 5);
    assert("wtime"@[0] == 'w');
    assert("btime"@.len() == 5);
    assert("btime"@[0] == 'b');
    assert("winc"@.len() == 4);
    assert("winc"@[0] == 'w');
    assert("binc"@.len() == 4);
    assert("binc"@[0] == 'b');
    assert("movestogo"@.len() == 9);
    assert("movestogo"@[0] == 'm');
    assert("depth"@.len() == 5);
    assert("depth"@[0] == 'd');
    assert("nodes"@.len() == 5);
    assert("nodes"@[0] == 'n');
    assert("mate"@.len() == 4);
    assert("mate"@[0] == 'm');
    assert("movetime"@.len() == 8);
    assert("movetime"@[0] == 'm');
    assert("infinite"@.len() == 8);
    assert("infinite"@[0] == 'i');
}

/// A `go` command with no parameters at all.
pub open spec fn spec_go_default() -> UCIGoCommand {
    UCIGoCommand {
        ponder: None,
        wtime: None,
        btime: None,
        winc: None,
        binc: None,
        movestogo: None,
        depth: None,
        nodes: None,
        mate: None,
        movetime: None,
        infinite: None,
    }
}

/// One pass of the token scan from position `i`: a known keyword stores its
/// flag or its parsed argument and skips past both; anything else is
/// ignored.  A later occurrence of a keyword overrides an earlier one.
pub open spec fn spec_go_parse(tokens: Seq<Seq<char>>, i: int, acc: UCIGoCommand) -> UCIGoCommand
    decreases tokens.len() - i,
{
    if i < 0 || i >= tokens.len() {
        acc
    } else {
        let t = tokens[i];
        if t == "ponder"@ {
            spec_go_parse(tokens, i + 1, UCIGoCommand { ponder: Some(true), ..acc })
        } else if t == "wtime"@ && i + 1 < tokens.len() {
            spec_go_parse(tokens, i + 2, UCIGoCommand { wtime: spec_parse_i32(tokens[i + 1]), ..acc })
        } else if t == "btime"@ && i + 1 < tokens.len() {
            spec_go_parse(tokens, i + 2, UCIGoCommand { btime: spec_parse_i32(tokens[i + 1]), ..acc })
        } else if t == "winc"@ && i + 1 < tokens.len() {
            spec_go_parse(tokens, i + 2, UCIGoCommand { winc: spec_parse_i32(tokens[i + 1]), ..acc })
        } else if t == "binc"@ && i + 1 < tokens.len() {
            spec_go_parse(tokens, i + 2, UCIGoCommand { binc: spec_parse_i32(tokens[i + 1]), ..acc })
        } else if t == "movestogo"@ && i + 1 < tokens.len() {
            spec_go_parse(tokens, i + 2, UCIGoCommand { movestogo: spec_parse_i32(tokens[i + 1]), ..acc })
        } else if t == "depth"@ && i + 1 < tokens.len() {
            spec_go_parse(tokens, i + 2, UCIGoCommand { depth: spec_parse_i32(tokens[i + 1]), ..acc })
        } else if t == "nodes"@ && i + 1 < tokens.len() {
            spec_go_parse(tokens, i + 2, UCIGoCommand { nodes: spec_parse_i32(tokens[i + 1]), ..acc })
        } else if t == "mate"@ && i + 1 < tokens.len() {
            spec_go_parse(tokens, i + 2, UCIGoCommand { mate: spec_parse_i32(tokens[i + 1]), ..acc })
        } else if t == "movetime"@ && i + 1 < tokens.len() {
            spec_go_parse(tokens, i + 2, UCIGoCommand { movetime: spec_parse_i32(tokens[i + 1]), ..acc })
        } else if t == "infinite"@ {
            spec_go_parse(tokens, i + 1, UCIGoCommand { infinite: Some(true), ..acc })
        } else {
            spec_go_parse(tokens, i + 1, acc)
        }
    }
}

/// What parsing a whole `go` line's tokens yields, the command word at
/// index zero skipped.
pub open spec fn spec_go_command(tokens: Seq<Seq<char>>) -> UCIGoCommand {
    spec_go_parse(tokens, 1, spec_go_default())
}

impl UCIGoCommand {
    /// Parse the whitespace-split tokens of a `go` line, the word `go`
    /// itself at index zero.
    pub fn new(tokens: &Vec<String>) -> (r: UCIGoCommand)
        ensures
            r == spec_go_command(tokens.deep_view()),
    {
        let ghost tv = tokens.deep_view();
        let mut ponder: Option<bool> = None;
        let mut wtime: Option<i32> = None;
        let mut btime: Option<i32> = None;
        let mut winc: Option<i32> = None;
        let mut binc: Option<i32> = None;
        let mut movestogo: Option<i32> = None;
        let mut depth: Option<i32> = None;
        let mut nodes: Option<i32> = None;
        let mut mate: Option<i32> = None;
        let mut movetime: Option<i32> = None;
        let mut infinite: Option<bool> = None;

        let n = tokens.len();
        let mut i: usize = 1;

        while i < n
            invariant
                n == tokens@.len(),
                tv == tokens.deep_view(),
                tv.len() == n,
                1 <= i <= n + 1,
                forall|k: int| 0 <= k < n ==> tv[k] == #[trigger] tokens@[k]@,
                spec_go_parse(
                    tv,
                    i as int,
                    UCIGoCommand {
                        ponder,
                        wtime,
                        btime,
                        winc,
                        binc,
                        movestogo,
                        depth,
                        nodes,
                        mate,
                        movetime,
                        infinite,
                    },
                ) == spec_go_command(tv),
            decreases n - i,
        {
            let ghost i0 = i as int;
            let ghost st0 = UCIGoCommand {
                ponder,
                wtime,
                btime,
                winc,
                binc,
                movestogo,
                depth,
                nodes,
                mate,
                movetime,
                infinite,
            };
            let t = tokens[i].as_str();
            proof {
                assert(t@ == tv[i0]);
            }
            if str_eq(t, "ponder") {
                ponder = Some(true);
                i = i + 1;
                proof {
                    assert(spec_go_parse(tv, i0, st0) == spec_go_parse(
                        tv,
                        i0 + 1,
                        UCIGoCommand { ponder: Some(true), ..st0 },
                    ));
                }
            } else if str_eq(t, "wtime") {
                if i + 1 < n {
                    wtime = parse_i32(tokens[i + 1].as_str());
                    i = i + 2;
                    proof {
                        assert(wtime == spec_parse_i32(tv[i0 + 1]));
                        assert(spec_go_parse(tv, i0, st0) == spec_go_parse(
                            tv,
                            i0 + 2,
                            UCIGoCommand { wtime: spec_parse_i32(tv[i0 + 1]), ..st0 },
                        ));
                    }
                } else {
                    i = i + 1;
                    proof {
                        lemma_go_keywords_distinct();
                        assert(spec_go_parse(tv, i0, st0) == spec_go_parse(tv, i0 + 1, st0));
                    }
                }
            } else if str_eq(t, "btime") {
                if i + 1 < n {
                    btime = parse_i32(tokens[i + 1].as_str());
                    i = i + 2;
                    proof {
                        assert(btime == spec_parse_i32(tv[i0 + 1]));
                        assert(spec_go_parse(tv, i0, st0) == spec_go_parse(
                            tv,
                            i0 + 2,
                            UCIGoCommand { btime: spec_parse_i32(tv[i0 + 1]), ..st0 },
                        ));
                    }
                } else {
                    i = i + 1;
                    proof {
                        lemma_go_keywords_distinct();
                        assert(spec_go_parse(tv, i0, st0) == spec_go_parse(tv, i0 + 1, st0));
                    }
                }
            } else if str_eq(t, "winc") {
                if i + 1 < n {
                    winc = parse_i32(tokens[i + 1].as_str());
                    i = i + 2;
                    proof {
                        assert(winc == spec_parse_i32(tv[i0 + 1]));
                        assert(spec_go_parse(tv, i0, st0) == spec_go_parse(
                            tv,
                            i0 + 2,
                            UCIGoCommand { winc: spec_parse_i32(tv[i0 + 1]), ..st0 },
                        ));
                    }
                } else {
                    i = i + 1;
                    proof {
                        lemma_go_keywords_distinct();
                        assert(spec_go_parse(tv, i0, st0) == spec_go_parse(tv, i0 + 1, st0));
                    }
                }
            } else if str_eq(t, "binc") {
                if i + 1 < n {
                    binc = parse_i32(tokens[i + 1].as_str());
                    i = i + 2;
                    proof {
                        assert(binc == spec_parse_i32(tv[i0 + 1]));
                        assert(spec_go_parse(tv, i0, st0) == spec_go_parse(
                            tv,
                            i0 + 2,
                            UCIGoCommand { binc: spec_parse_i32(tv[i0 + 1]), ..st0 },
                        ));
                    }
                } else {
                    i = i + 1;
                    proof {
                        lemma_go_keywords_distinct();
                        assert(spec_go_parse(tv, i0, st0) == spec_go_parse(tv, i0 + 1, st0));
                    }
                }
            } else if str_eq(t, "movestogo") {
                if i + 1 < n {
                    movestogo = parse_i32(tokens[i + 1].as_str());
                    i = i + 2;
                    proof {
                        assert(movestogo == spec_parse_i32(tv[i0 + 1]));
                        assert(spec_go_parse(tv, i0, st0) == spec_go_parse(
                            tv,
                            i0 + 2,
                            UCIGoCommand { movestogo: spec_parse_i32(tv[i0 + 1]), ..st0 },
                        ));
                    }
                } else {
                    i = i + 1;
                    proof {
                        lemma_go_keywords_distinct();
                        assert(spec_go_parse(tv, i0, st0) == spec_go_parse(tv, i0 + 1, st0));
                    }
                }
            } else if str_eq(t, "depth") {
                if i + 1 < n {
                    depth = parse_i32(tokens[i + 1].as_str());
                    i = i + 2;
                    proof {
                        assert(depth == spec_parse_i32(tv[i0 + 1]));
                        assert(spec_go_parse(tv, i0, st0) == spec_go_parse(
                            tv,
                            i0 + 2,
                            UCIGoCommand { depth: spec_parse_i32(tv[i0 + 1]), ..st0 },
                        ));
                    }
                } else {
                    i = i + 1;
                    proof {
                        lemma_go_keywords_distinct();
                        assert(spec_go_parse(tv, i0, st0) == spec_go_parse(tv, i0 + 1, st0));
                    }
                }
            } else if str_eq(t, "nodes") {
                if i + 1 < n {
                    nodes = parse_i32(tokens[i + 1].as_str());
                    i = i + 2;
                    proof {
                        assert(nodes == spec_parse_i32(tv[i0 + 1]));
                        assert(spec_go_parse(tv, i0, st0) == spec_go_parse(
                            tv,
                            i0 + 2,
                            UCIGoCommand { nodes: spec_parse_i32(tv[i0 + 1]), ..st0 },
                        ));
                    }
                } else {
                    i = i + 1;
                    proof {
                        lemma_go_keywords_distinct();
                        assert(spec_go_parse(tv, i0, st0) == spec_go_parse(tv, i0 + 1, st0));
                    }
                }
            } else if str_eq(t, "mate") {
                if i + 1 < n {
                    mate = parse_i32(tokens[i + 1].as_str());
                    i = i + 2;
                    proof {
                        assert(mate == spec_parse_i32(tv[i0 + 1]));
                        assert(spec_go_parse(tv, i0, st0) == spec_go_parse(
                            tv,
                            i0 + 2,
                            UCIGoCommand { mate: spec_parse_i32(tv[i0 + 1]), ..st0 },
                        ));
                    }
                } else {
                    i = i + 1;
                    proof {
                        lemma_go_keywords_distinct();
                        assert(spec_go_parse(tv, i0, st0) == spec_go_parse(tv, i0 + 1, st0));
                    }
                }
            } else if str_eq(t, "movetime") {
                if i + 1 < n {
                    movetime = parse_i32(tokens[i + 1].as_str());
                    i = i + 2;
                    proof {
                        assert(movetime == spec_parse_i32(tv[i0 + 1]));
                        assert(spec_go_parse(tv, i0, st0) == spec_go_parse(
                            tv,
                            i0 + 2,
                            UCIGoCommand { movetime: spec_parse_i32(tv[i0 + 1]), ..st0 },
                        ));
                    }
                } else {
                    i = i + 1;
                    proof {
                        lemma_go_keywords_distinct();
                        assert(spec_go_parse(tv, i0, st0) == spec_go_parse(tv, i0 + 1, st0));
                    }
                }
            } else if str_eq(t, "infinite") {
                infinite = Some(true);
                i = i + 1;
                proof {
                    assert(spec_go_parse(tv, i0, st0) == spec_go_parse(
                        tv,
                        i0 + 1,
                        UCIGoCommand { infinite: Some(true), ..st0 },
                    ));
                }
            } else {
                i = i + 1;
                proof {
                    assert(spec_go_parse(tv, i0, st0) == spec_go_parse(tv, i0 + 1, st0));
                }
            }
        }

        UCIGoCommand {
            ponder,
            wtime,
            btime,
            winc,
            binc,
            movestogo,
            depth,
            nodes,
            mate,
            movetime,
            infinite,
        }
    }
}

} // verus!
