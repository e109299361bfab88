use vstd::prelude::*;

use crate::assemble::views_of;

verus! {

/// The whitespace characters that separate extra build flags.
pub open spec fn is_space(c: char) -> bool {
    c == ' ' || c == '\t' || c == '\n' || c == '\x0C' || c == '\r'
}

/// The decimal digit `d` as a character.
pub open spec fn digit_char(d: nat) -> char {
    if d == 0 {
        '0'
    } else if d == 1 {
        '1'
    } else if d == 2 {
        '2'
    } else if d == 3 {
        '3'
    } else if d == 4 {
        '4'
    } else if d == 5 {
        '5'
    } else if d == 6 {
        '6'
    } else if d == 7 {
        '7'
    } else if d == 8 {
        '8'
    } else {
        '9'
    }
}

/// The decimal rendering of `n`, most significant digit first, with no
/// leading zeros except for zero itself.
pub open spec fn decimal_of(n: nat) -> Seq<char>
    decreases n,
{
    if n < 10 {
        seq![digit_char(n)]
    } else {
        decimal_of(n / 10) + seq![digit_char(n % 10)]
    }
}

fn digit_str(d: u64) -> (r: &'static str)
    requires
        d < 10,
    ensures
        r@ == seq![digit_char(d as nat)],
{
    if d == 0 {
        proof {
            reveal_strlit("0");
            assert("0"@ =~= seq![digit_char(0)]);
        }
        "0"
    } else if d == 1 {
        proof {
            reveal_strlit("1");
            assert("1"@ =~= seq![digit_char(1)]);
        }
        "1"
    } else if d == 2 {
        proof {
            reveal_strlit("2");
            assert("2"@ =~= seq![digit_char(2)]);
        }
        "2"
    } else if d == 3 {
        proof {
            reveal_strlit("3");
            assert("3"@ =~= seq![digit_char(3)]);
        }
        "3"
    } else if d == 4 {
        proof {
            reveal_strlit("4");
            assert("4"@ =~= seq![digit_char(4)]);
        }
        "4"
    } else if d == 5 {
        proof {
            reveal_strlit("5");
            assert("5"@ =~= seq![digit_char(5)]);
        }
        "5"
    } else if d == 6 {
        proof {
            reveal_strlit("6");
            assert("6"@ =~= seq![digit_char(6)]);
        }
        "6"
    } else if d == 7 {
        proof {
            reveal_strlit("7");
            assert("7"@ =~= seq![digit_char(7)]);
        }
        "7"
    } else if d == 8 {
        proof {
            reveal_strlit("8");
            assert("8"@ =~= seq![digit_char(8)]);
        }
        "8"
    } else {
        proof {
            reveal_strlit("9");
            assert("9"@ =~= seq![digit_char(d as nat)]);
        }
        "9"
    }
}

/// Renders `n` in decimal, as `decimal_of` describes.
pub fn decimal_string(n: u64) -> (r: String)
    ensures
        r@ == decimal_of(n as nat),
    decreases n,
{
    if n < 10 {
        String::from_str(digit_str(n))
    } else {
        let mut r = decimal_string(n / 10);
        r.append(digit_str(n % 10));
        proof {
            assert(r@ =~= decimal_of((n / 10) as nat) + seq![digit_char((n % 10) as nat)]);
        }
        r
    }
}

/// The build features the build command is invoked with: the caller's
/// override where one was supplied, else the profile feature derived from
/// the configured server's major version.
pub fn build_features(major_version: u16, overridden: &Option<String>) -> (r: String)
    ensures
        overridden matches Some(f) ==> r@ == f@,
        overridden is None ==> r@ == "pg"@ + decimal_of(major_version as nat),
{
    match overridden {
        Option::Some(f) => f.clone(),
        Option::None => {
            let mut s = String::from_str("pg");
            s.append(decimal_string(major_version as u64).as_str());
            s
        },
    }
}

/// The extra flags string split into words at whitespace, defined one
/// character at a time from the right: a whitespace character separates, a
/// non-whitespace character extends the word in progress or begins a new
/// one.
pub open spec fn split_words(s: Seq<char>) -> Seq<Seq<char>>
    decreases s.len(),
{
    if s.len() == 0 {
        Seq::<Seq<char>>::empty()
    } else {
        let prior = split_words(s.drop_last());
        let c = s.last();
        if is_space(c) {
            prior
        } else if s.len() >= 2 && !is_space(s[s.len() - 2]) {
            prior.update(prior.len() - 1, prior.last().push(c))
        } else {
            prior.push(seq![c])
        }
    }
}

/// Extending a word by its next characters: when every character of
/// `s[from..to)` is non-whitespace and `from` begins a word, the split of
/// `s.take(to)` is the split of `s.take(from)` with that whole run pushed
/// as one more word.
proof fn lemma_split_words_extend(s: Seq<char>, from: int, to: int)
    requires
        0 <= from < to <= s.len(),
        from == 0 || is_space(s[from - 1]),
        forall|k: int| from <= k < to ==> !is_space(#[trigger] s[k]),
    ensures
        split_words(s.take(to)) == split_words(s.take(from)).push(s.subrange(from, to)),
    decreases to - from,
{
    let cur = s.take(to);
    assert(cur.drop_last() =~= s.take(to - 1));
    assert(cur.last() == s[to - 1]);
    if to == from + 1 {
        assert(split_words(cur) == split_words(s.take(from)).push(seq![s[from]]));
        assert(seq![s[from]] =~= s.subrange(from, to));
    } else {
        lemma_split_words_extend(s, from, to - 1);
        let prior = split_words(s.take(to - 1));
        assert(cur.len() >= 2 && !is_space(cur[cur.len() - 2]));
        assert(prior.last() == s.subrange(from, to - 1));
        assert(split_words(cur) == prior.update(
            prior.len() - 1,
            s.subrange(from, to - 1).push(s[to - 1]),
        ));
        assert(s.subrange(from, to - 1).push(s[to - 1]) =~= s.subrange(from, to));
        assert(prior.update(prior.len() - 1, s.subrange(from, to)) =~= split_words(
            s.take(from),
        ).push(s.subrange(from, to)));
    }
}

fn is_space_char(c: char) -> (r: bool)
    ensures
        r == is_space(c),
{
    c == ' ' || c == '\t' || c == '\n' || c == '\x0C' || c == '\r'
}

/// Splits the extra-flags string into whitespace-separated words, as
/// `split_words` describes.
pub fn split_flags(flags: &str) -> (r: Vec<String>)
    ensures
        views_of(r@) == split_words(flags@),
{
    let len = flags.unicode_len();
    let mut words: Vec<String> = Vec::new();
    let mut i: usize = 0;
    proof {
        assert(flags@.take(0) =~= Seq::<char>::empty());
        assert(views_of(words@) =~= split_words(flags@.take(0)));
    }
    while i < len
        invariant
            i <= len,
            len == flags@.len(),
            i == 0 || i == len || is_space(flags@[i - 1]) || is_space(flags@[i as int]),
            views_of(words@) == split_words(flags@.take(i as int)),
        decreases len - i,
    {
        if is_space_char(flags.get_char(i)) {
            proof {
                assert(flags@.take(i as int + 1).drop_last() =~= flags@.take(i as int));
                assert(flags@.take(i as int + 1).last() == flags@[i as int]);
            }
            i = i + 1;
        } else {
            let start = i;
            let mut j = i + 1;
            while j < len && !is_space_char(flags.get_char(j))
                invariant
                    start < j <= len,
                    len == flags@.len(),
                    forall|k: int| start <= k < j ==> !is_space(#[trigger] flags@[k]),
                decreases len - j,
            {
                j = j + 1;
            }
            let word = String::from_str(flags.substring_char(start, j));
            words.push(word);
            proof {
                assert(flags@.subrange(start as int, j as int) =~= word@);
                lemma_split_words_extend(flags@, start as int, j as int);
                assert(views_of(words@) =~= split_words(flags@.take(start as int)).push(word@));
            }
            i = j;
        }
    }
    proof {
        assert(flags@.take(len as int) =~= flags@);
    }
    words
}

/// The Unicode White_Space characters: what trimming a string removes when
/// the features string is tested for blankness. Wider than `is_space`, which
/// covers only the ASCII separators that split the extra flags.
pub open spec fn is_unicode_space(c: char) -> bool {
    ||| c == '\u{0009}'
    ||| c == '\u{000A}'
    ||| c == '\u{000B}'
    ||| c == '\u{000C}'
    ||| c == '\u{000D}'
    ||| c == '\u{0020}'
    ||| c == '\u{0085}'
    ||| c == '\u{00A0}'
    ||| c == '\u{1680}'
    ||| c == '\u{2000}'
    ||| c == '\u{2001}'
    ||| c == '\u{2002}'
    ||| c == '\u{2003}'
    ||| c == '\u{2004}'
    ||| c == '\u{2005}'
    ||| c == '\u{2006}'
    ||| c == '\u{2007}'
    ||| c == '\u{2008}'
    ||| c == '\u{2009}'
    ||| c == '\u{200A}'
    ||| c == '\u{2028}'
    ||| c == '\u{2029}'
    ||| c == '\u{202F}'
    ||| c == '\u{205F}'
    ||| c == '\u{3000}'
}

fn is_unicode_space_char(c: char) -> (r: bool)
    ensures
        r == is_unicode_space(c),
{
    c == '\u{0009}' || c == '\u{000A}' || c == '\u{000B}' || c == '\u{000C}' || c == '\u{000D}'
        || c == '\u{0020}' || c == '\u{0085}' || c == '\u{00A0}' || c == '\u{1680}' || c
        == '\u{2000}' || c == '\u{2001}' || c == '\u{2002}' || c == '\u{2003}' || c == '\u{2004}'
        || c == '\u{2005}' || c == '\u{2006}' || c == '\u{2007}' || c == '\u{2008}' || c
        == '\u{2009}' || c == '\u{200A}' || c == '\u{2028}' || c == '\u{2029}' || c == '\u{202F}'
        || c == '\u{205F}' || c == '\u{3000}'
}

/// Nothing but Unicode whitespace: trimming such a features string leaves it
/// empty, so it adds no feature arguments.
pub open spec fn all_space(s: Seq<char>) -> bool {
    forall|k: int| 0 <= k < s.len() ==> is_unicode_space(#[trigger] s[k])
}

/// Whether the features string is blank, as `all_space` describes.
pub fn features_blank(features: &str) -> (r: bool)
    ensures
        r == all_space(features@),
{
    let len = features.unicode_len();
    let mut i: usize = 0;
    while i < len
        invariant
            i <= len,
            len == features@.len(),
            forall|k: int| 0 <= k < i ==> is_unicode_space(#[trigger] features@[k]),
        decreases len - i,
    {
        if !is_unicode_space_char(features.get_char(i)) {
            return false;
        }
        i = i + 1;
    }
    true
}

/// The argument list the build command is spawned with: the build verb, the
/// release flag for a release profile, the feature selection when the
/// features string is not blank, and the extra flags split at whitespace,
/// in that order.
pub open spec fn build_args_of(is_release: bool, features: Seq<char>, flags: Seq<char>) -> Seq<
    Seq<char>,
> {
    seq!["build"@] + (if is_release {
        seq!["--release"@]
    } else {
        Seq::<Seq<char>>::empty()
    }) + (if !all_space(features) {
        seq!["--features"@, features, "--no-default-features"@]
    } else {
        Seq::<Seq<char>>::empty()
    }) + split_words(flags)
}

/// Builds the argument list for the build command, as `build_args_of`
/// describes.
pub fn build_command_args(is_release: bool, features: &str, flags: &str) -> (r: Vec<String>)
    ensures
        views_of(r@) == build_args_of(is_release, features@, flags@),
{
    let ghost head = seq!["build"@] + (if is_release {
        seq!["--release"@]
    } else {
        Seq::<Seq<char>>::empty()
    }) + (if !all_space(features@) {
        seq!["--features"@, features@, "--no-default-features"@]
    } else {
        Seq::<Seq<char>>::empty()
    });
    let mut args: Vec<String> = Vec::new();
    args.push(String::from_str("build"));
    if is_release {
        args.push(String::from_str("--release"));
    }
    if !features_blank(features) {
        args.push(String::from_str("--features"));
        args.push(String::from_str(features));
        args.push(String::from_str("--no-default-features"));
    }
    proof {
        assert(views_of(args@) =~= head);
    }
    let mut words = split_flags(flags);
    let ghost words_snapshot = words@;
    args.append(&mut words);
    proof {
        assert(views_of(args@) =~~= head + views_of(words_snapshot));
        assert(views_of(args@) =~= build_args_of(is_release, features@, flags@));
    }
    args
}

} // verus!
