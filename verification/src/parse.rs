//! The application surface's own little grammar: a non-empty,
//! comma-separated list of alias identifiers, as it stands between the
//! annotation's parentheses once whitespace is gone.
use vstd::prelude::*;
use vstd::string::*;

use crate::model::{check_ident, is_ident, Error, ErrModel};

verus! {

/// The index of the first comma in `s`, or `s.len()` when there is none.
pub open spec fn first_comma(s: Seq<char>) -> nat
    decreases s.len(),
{
    if s.len() == 0 {
        0
    } else if s[0] == ',' {
        0
    } else {
        1 + first_comma(s.skip(1))
    }
}

/// `first_comma` finds a comma and nothing before one.
pub proof fn lemma_first_comma(s: Seq<char>)
    ensures
        first_comma(s) <= s.len(),
        forall|k: int| 0 <= k < first_comma(s) ==> s[k] != ',',
        first_comma(s) < s.len() ==> s[first_comma(s) as int] == ',',
    decreases s.len(),
{
    if s.len() == 0 {
    } else if s[0] == ',' {
    } else {
        lemma_first_comma(s.skip(1));
        assert forall|k: int| 0 <= k < first_comma(s) implies s[k] != ',' by {
            if k >= 1 {
                assert(s.skip(1)[k - 1] != ',');
            }
        }
        if first_comma(s) < s.len() {
            assert(s.skip(1)[first_comma(s.skip(1)) as int] == ',');
        }
    }
}

/// A position that has no comma before it and a comma (or the end) at it is
/// the first comma position.
pub proof fn lemma_first_comma_unique(s: Seq<char>, i: int)
    requires
        0 <= i <= s.len(),
        forall|k: int| 0 <= k < i ==> s[k] != ',',
        i < s.len() ==> s[i] == ',',
    ensures
        first_comma(s) == i,
{
    lemma_first_comma(s);
    if (first_comma(s) as int) < i {
        assert(s[first_comma(s) as int] != ',');
    }
    if i < first_comma(s) as int {
        assert(s[i] != ',');
    }
}

/// The pieces of `s` between its commas, in order. A string with no comma
/// is one piece; in particular the empty string is one empty piece.
pub open spec fn comma_split(s: Seq<char>) -> Seq<Seq<char>>
    decreases s.len(),
    via comma_split_decreases
{
    if first_comma(s) >= s.len() {
        seq![s]
    } else {
        seq![s.take(first_comma(s) as int)] + comma_split(s.skip(first_comma(s) as int + 1))
    }
}

#[via_fn]
proof fn comma_split_decreases(s: Seq<char>) {
    lemma_first_comma(s);
}

/// The pieces joined back with commas.
pub open spec fn comma_join(ps: Seq<Seq<char>>) -> Seq<char>
    decreases ps.len(),
{
    if ps.len() == 0 {
        Seq::empty()
    } else if ps.len() == 1 {
        ps[0]
    } else {
        ps[0] + seq![','] + comma_join(ps.skip(1))
    }
}

/// Splitting never yields an empty piece list.
pub proof fn lemma_comma_split_nonempty(s: Seq<char>)
    ensures
        comma_split(s).len() >= 1,
{
}

/// Splitting at the commas and joining the pieces back with commas is the
/// identity: the pieces carry exactly the input's text, in order.
pub proof fn lemma_comma_split_join(s: Seq<char>)
    ensures
        comma_join(comma_split(s)) == s,
    decreases s.len(),
{
    lemma_first_comma(s);
    let i = first_comma(s) as int;
    if i >= s.len() {
        assert(comma_join(seq![s]) == s);
    } else {
        let rest = s.skip(i + 1);
        lemma_comma_split_join(rest);
        lemma_comma_split_nonempty(rest);
        let ps = comma_split(s);
        assert(ps == seq![s.take(i)] + comma_split(rest));
        assert(ps.len() >= 2);
        assert(ps[0] == s.take(i));
        assert(ps.skip(1) =~= comma_split(rest));
        assert(comma_join(ps) == s.take(i) + seq![','] + comma_join(comma_split(rest)));
        assert(s.take(i) + seq![','] + rest =~= s);
    }
}

/// The first comma in `s` at or after `from`, or the length of `s` when
/// there is none.
fn find_comma(s: &str, from: usize) -> (r: usize)
    requires
        from <= s@.len(),
    ensures
        from <= r <= s@.len(),
        forall|k: int| from <= k < r ==> s@[k] != ',',
        r < s@.len() ==> s@[r as int] == ',',
{
    let n = s.unicode_len();
    let mut j: usize = from;
    while j < n
        invariant
            from <= j <= n,
            n == s@.len(),
            forall|k: int| from <= k < j ==> s@[k] != ',',
        decreases n - j,
    {
        if s.get_char(j) == ',' {
            return j;
        }
        j += 1;
    }
    j
}

/// Splits the alias list `s` at its commas and checks that each piece is an
/// identifier. An empty list is refused outright; otherwise the first piece
/// that is not an identifier is reported, by its text.
#[verifier::rlimit(100)]
pub fn parse_alias_list(s: &str) -> (r: Result<Vec<String>, Error>)
    ensures
        match r {
            Ok(names) => {
                &&& names@.len() == comma_split(s@).len()
                &&& forall|k: int|
                    0 <= k < names@.len() ==> (#[trigger] names@[k]@) == comma_split(s@)[k]
                &&& forall|k: int|
                    0 <= k < comma_split(s@).len() ==> is_ident(#[trigger] comma_split(s@)[k])
            },
            Err(e) => if s@.len() == 0 {
                e@ == ErrModel::EmptyAliasList
            } else {
                exists|k: int|
                    {
                        &&& 0 <= k < comma_split(s@).len()
                        &&& !is_ident(#[trigger] comma_split(s@)[k])
                        &&& forall|j: int| 0 <= j < k ==> is_ident(#[trigger] comma_split(s@)[j])
                        &&& e@ == ErrModel::InvalidAliasName(comma_split(s@)[k])
                    }
            },
        },
{
    let n = s.unicode_len();
    if n == 0 {
        return Err(Error::EmptyAliasList);
    }
    let mut names: Vec<String> = Vec::new();
    let mut pos: usize = 0;
    proof {
        assert(s@.skip(0) =~= s@);
    }
    loop
        invariant
            pos <= n,
            1 <= n,
            n == s@.len(),
            names@.len() + comma_split(s@.skip(pos as int)).len() == comma_split(s@).len(),
            forall|k: int|
                0 <= k < names@.len() ==> (#[trigger] names@[k]@) == comma_split(s@)[k]
                    && is_ident(comma_split(s@)[k]),
            forall|k: int|
                0 <= k < comma_split(s@.skip(pos as int)).len() ==> (#[trigger] comma_split(
                    s@.skip(pos as int),
                )[k]) == comma_split(s@)[names@.len() + k],
        decreases n - pos,
    {
        let ghost rest = s@.skip(pos as int);
        let ghost done = names@.len() as int;
        let ghost names0 = names@;
        let j: usize = find_comma(s, pos);
        proof {
            assert forall|k: int| 0 <= k < j - pos implies rest[k] != ',' by {
                assert(rest[k] == s@[pos + k]);
            }
            if (j as int) < n as int {
                assert(rest[j - pos] == s@[j as int]);
            }
            lemma_first_comma_unique(rest, j - pos);
        }
        let piece = s.substring_char(pos, j);
        proof {
            assert(piece@ =~= rest.take(j - pos));
            if j == n {
                assert(rest.take(j - pos) =~= rest);
                assert(comma_split(rest) == seq![rest]);
                assert(comma_split(rest)[0] == rest);
            } else {
                assert(comma_split(rest) == seq![rest.take(j - pos)] + comma_split(
                    rest.skip(j - pos + 1),
                ));
                assert(comma_split(rest)[0] == rest.take(j - pos));
            }
            assert(comma_split(rest)[0] == piece@);
            assert(comma_split(s@.skip(pos as int))[0] == comma_split(s@)[done + 0]);
            assert(comma_split(s@)[done] == piece@);
            assert(0 <= done < comma_split(s@).len());
        }
        if !check_ident(piece) {
            let text = String::from_str(piece);
            proof {
                assert(text@ == comma_split(s@)[done]);
                assert(!is_ident(comma_split(s@)[done]));
                assert forall|jx: int| 0 <= jx < done implies is_ident(
                    #[trigger] comma_split(s@)[jx],
                ) by {
                    assert(names0[jx]@ == comma_split(s@)[jx]);
                }
            }
            return Err(Error::InvalidAliasName { text });
        }
        let nm = String::from_str(piece);
        names.push(nm);
        proof {
            assert(names@ == names0.push(nm));
            assert forall|k: int| 0 <= k < names@.len() implies (#[trigger] names@[k]@)
                == comma_split(s@)[k] && is_ident(comma_split(s@)[k]) by {
                if k < done {
                    assert(names@[k] == names0[k]);
                    assert(names0[k]@ == comma_split(s@)[k]);
                } else {
                    assert(names@[k] == nm);
                    assert(comma_split(s@)[done] == piece@);
                }
            }
        }
        if j == n {
            proof {
                assert(comma_split(rest).len() == 1);
                assert forall|k: int| 0 <= k < comma_split(s@).len() implies is_ident(
                    #[trigger] comma_split(s@)[k],
                ) by {
                    assert(names@[k]@ == comma_split(s@)[k]);
                }
            }
            return Ok(names);
        }
        proof {
            assert(s@.skip(j + 1) =~= rest.skip(j - pos + 1));
            assert forall|k: int|
                0 <= k < comma_split(s@.skip(j + 1)).len() implies (#[trigger] comma_split(
                s@.skip(j + 1),
            )[k]) == comma_split(s@)[done + 1 + k] by {
                assert(comma_split(rest)[k + 1] == comma_split(rest.skip(j - pos + 1))[k]);
                assert(comma_split(s@.skip(pos as int))[k + 1] == comma_split(s@)[done + (k + 1)]);
            }
        }
        pos = j + 1;
    }
}

} // verus!
