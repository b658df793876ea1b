//! The version record and its canonical text rendering.

use vstd::prelude::*;
use vstd::string::StringExecFns;

verus! {

/// Information about the closest ancestor tag of the current commit.
#[derive(Clone, Copy, PartialEq, Eq)]
pub struct TagInfo<'a> {
    /// The name of the tag (e.g. `"v1.2.3"`, `"release-1.0"`).
    pub tag: &'a str,
    /// The number of first-parent steps between the tagged commit and the
    /// current head. `0` means the head itself is tagged.
    pub commits_since_tag: u32,
}

/// Version information extracted from a repository.
///
/// The canonical text form, produced by [`GitInfo::render`], is
/// `{tag}+{commits}.g{commit_id}` when an ancestor tag exists and
/// `unknown.g{commit_id}` when none does, with `.modified` appended when the
/// working tree has uncommitted changes to tracked files.
#[derive(Clone, Copy, PartialEq, Eq)]
pub struct GitInfo<'a, 'b> {
    /// The closest ancestor tag on the first-parent chain, or `None` if no
    /// reachable commit is tagged.
    pub tag_info: Option<TagInfo<'a>>,
    /// The shortened id of the current head commit, of length
    /// [`COMMIT_ID_SHORT_HASH_LENGTH`](crate::COMMIT_ID_SHORT_HASH_LENGTH).
    pub commit_id: &'b str,
    /// Whether tracked files carry staged or unstaged changes. Untracked
    /// files do not count as modifications.
    pub modified: bool,
}

/// The character that writes the decimal digit `d`.
pub open spec fn spec_digit_char(d: nat) -> char {
    if d == 0 {
        '0'
    } else if d == 1 {
        '1'
    } else if d == 2 {
        '2'
    } else if d == 3 {
        '3'
    } else if d == 4 {
        '4'
    } else if d == 5 {
        '5'
    } else if d == 6 {
        '6'
    } else if d == 7 {
        '7'
    } else if d == 8 {
        '8'
    } else {
        '9'
    }
}

/// The decimal rendering of `n`, most significant digit first, without
/// leading zeros (`0` renders as `"0"`).
pub open spec fn spec_dec(n: nat) -> Seq<char>
    decreases n,
{
    if n < 10 {
        seq![spec_digit_char(n)]
    } else {
        spec_dec(n / 10) + seq![spec_digit_char(n % 10)]
    }
}

pub open spec fn spec_unknown_text() -> Seq<char> {
    seq!['u', 'n', 'k', 'n', 'o', 'w', 'n']
}

pub open spec fn spec_modified_suffix() -> Seq<char> {
    seq!['.', 'm', 'o', 'd', 'i', 'f', 'i', 'e', 'd']
}

fn digit_str(d: u32) -> (r: &'static str)
    requires
        d < 10,
    ensures
        r@ == seq![spec_digit_char(d as nat)],
{
    match d {
        0 => {
            proof {
                reveal_strlit("0");
                assert("0"@ =~= seq![spec_digit_char(0)]);
            }
            "0"
        },
        1 => {
            proof {
                reveal_strlit("1");
                assert("1"@ =~= seq![spec_digit_char(1)]);
            }
            "1"
        },
        2 => {
            proof {
                reveal_strlit("2");
                assert("2"@ =~= seq![spec_digit_char(2)]);
            }
            "2"
        },
        3 => {
            proof {
                reveal_strlit("3");
                assert("3"@ =~= seq![spec_digit_char(3)]);
            }
            "3"
        },
        4 => {
            proof {
                reveal_strlit("4");
                assert("4"@ =~= seq![spec_digit_char(4)]);
            }
            "4"
        },
        5 => {
            proof {
                reveal_strlit("5");
                assert("5"@ =~= seq![spec_digit_char(5)]);
            }
            "5"
        },
        6 => {
            proof {
                reveal_strlit("6");
                assert("6"@ =~= seq![spec_digit_char(6)]);
            }
            "6"
        },
        7 => {
            proof {
                reveal_strlit("7");
                assert("7"@ =~= seq![spec_digit_char(7)]);
            }
            "7"
        },
        8 => {
            proof {
                reveal_strlit("8");
                assert("8"@ =~= seq![spec_digit_char(8)]);
            }
            "8"
        },
        _ => {
            proof {
                reveal_strlit("9");
                assert("9"@ =~= seq![spec_digit_char(9)]);
            }
            "9"
        },
    }
}

/// Renders `n` in decimal, matching [`spec_dec`].
pub fn u32_to_dec_string(n: u32) -> (s: String)
    ensures
        s@ == spec_dec(n as nat),
    decreases n,
{
    if n < 10 {
        digit_str(n).to_owned()
    } else {
        let mut s = u32_to_dec_string(n / 10);
        s.append(digit_str(n % 10));
        proof {
            assert((n / 10) as nat == n as nat / 10);
            assert((n % 10) as nat == n as nat % 10);
        }
        s
    }
}

impl<'a, 'b> GitInfo<'a, 'b> {
    /// The canonical text form of this record.
    pub open spec fn spec_render(self) -> Seq<char> {
        (match self.tag_info {
            Some(t) => t.tag@ + seq!['+'] + spec_dec(t.commits_since_tag as nat),
            None => spec_unknown_text(),
        }) + seq!['.', 'g'] + self.commit_id@ + (if self.modified {
            spec_modified_suffix()
        } else {
            Seq::<char>::empty()
        })
    }

    /// Writes this record as `{tag}+{commits}.g{commit_id}` or
    /// `unknown.g{commit_id}`, with `.modified` appended when the working
    /// tree differs from the head commit.
    pub fn render(&self) -> (r: String)
        ensures
            r@ == self.spec_render(),
    {
        proof {
            reveal_strlit("+");
            reveal_strlit("unknown");
            reveal_strlit(".g");
            reveal_strlit(".modified");
        }
        let mut s: String;
        match self.tag_info {
            Some(t) => {
                s = t.tag.to_owned();
                s.append("+");
                let d = u32_to_dec_string(t.commits_since_tag);
                s.append(d.as_str());
                proof {
                    assert(s@ =~= t.tag@ + seq!['+'] + spec_dec(t.commits_since_tag as nat));
                }
            },
            None => {
                s = "unknown".to_owned();
                proof {
                    assert(s@ =~= spec_unknown_text());
                }
            },
        }
        s.append(".g");
        s.append(self.commit_id);
        if self.modified {
            s.append(".modified");
        }
        proof {
            assert(s@ =~= self.spec_render());
        }
        s
    }
}

} // verus!
