//! The URI that is handed to the sender. A payjoin URI switches output substitution off with a
//! `pjos` parameter; without one it is on, and the on-ramp needs it on.

use crate::seqs::{lemma_filter_holds, lemma_filter_next};
use crate::text::{
    ascii_lowered, chars_of, join, joined, law_lower_case_keeps_the_rest,
    law_separator_parts_the_pieces, lemma_pieces_not_empty, pieces, split, str_eq, string_of, texts, to_ascii_lower,
};
use vstd::prelude::*;

verus! {

/// Whether a query parameter says something on output substitution.
pub open spec fn is_pjos(kv: Seq<char>) -> bool {
    ascii_lowered(kv) == "pjos=0"@ || ascii_lowered(kv) == "pjos=1"@
}

/// A query without the parameters that say something on output substitution.
pub open spec fn query_kept(query: Seq<char>) -> Seq<char> {
    joined(pieces(query, '&').filter(|kv: Seq<char>| !is_pjos(kv)), '&')
}

/// A URI without the parameters that say something on output substitution. The query is all that
/// stands behind the first question mark, and what stands before it is left alone.
pub open spec fn pjos_stripped(uri: Seq<char>) -> Seq<char> {
    match uri.index_of_first('?') {
        Some(at) => uri.take(at + 1) + query_kept(uri.skip(at + 1)),
        None => uri,
    }
}

fn keeps(kv: &str) -> (r: bool)
    ensures
        r == !is_pjos(kv@),
{
    let lower = to_ascii_lower(kv);
    !(str_eq(lower.as_str(), "pjos=0") || str_eq(lower.as_str(), "pjos=1"))
}

fn keep_query(query: &str) -> (out: String)
    ensures
        out@ == query_kept(query@),
{
    let parts = split(query, '&');
    let ghost all = pieces(query@, '&');
    let ghost kept = |kv: Seq<char>| !is_pjos(kv);
    let mut out: Vec<String> = Vec::new();
    proof {
        reveal(Seq::filter);
        assert(texts(out@) =~= all.take(0).filter(kept));
    }
    let mut i: usize = 0;
    while i < parts.len()
        invariant
            texts(parts@) == all,
            kept == (|kv: Seq<char>| !is_pjos(kv)),
            i <= parts@.len(),
            texts(out@) == all.take(i as int).filter(kept),
        decreases parts@.len() - i,
    {
        let ghost before = texts(out@);
        proof {
            assert(all[i as int] == parts@[i as int]@);
            lemma_filter_next(all, kept, i as int);
        }
        if keeps(parts[i].as_str()) {
            out.push(parts[i].clone());
            proof {
                assert(texts(out@) =~= before.push(all[i as int]));
            }
        }
        i += 1;
    }
    proof {
        assert(all.take(i as int) =~= all);
    }
    join(&out, '&')
}

/// Takes the parameters that say something on output substitution out of a URI.
pub fn strip_pjos(uri: &str) -> (out: String)
    ensures
        out@ == pjos_stripped(uri@),
{
    let chars = chars_of(uri);
    let mut at: usize = 0;
    while at < chars.len() && chars[at] != '?'
        invariant
            at <= chars@.len(),
            forall|i: int| 0 <= i < at ==> #[trigger] chars@[i] != '?',
        decreases chars@.len() - at,
    {
        at += 1;
    }
    proof {
        uri@.index_of_first_ensures('?');
    }
    if at == chars.len() {
        return uri.to_owned();
    }
    proof {
        assert(uri@[at as int] == '?');
        assert(uri@.index_of_first('?') == Some(at as int));
    }
    let mut out = string_of(&chars, 0, at + 1);
    let query = string_of(&chars, at + 1, chars.len());
    proof {
        assert(out@ =~= uri@.take(at + 1));
        assert(query@ =~= uri@.skip(at + 1));
    }
    out.append(keep_query(query.as_str()).as_str());
    out
}

/// The URI to hand to the sender, from the one that the payjoin session writes.
pub fn onramp_pj_uri(session_uri: &str) -> (uri: String)
    ensures
        uri@ == pjos_stripped(session_uri@),
{
    strip_pjos(session_uri)
}

spec fn without(s: Seq<char>, sep: char) -> bool {
    forall|i: int| 0 <= i < s.len() ==> #[trigger] s[i] != sep
}

proof fn lemma_pieces_without(s: Seq<char>, sep: char)
    ensures
        forall|i: int| 0 <= i < pieces(s, sep).len() ==> without(#[trigger] pieces(s, sep)[i], sep),
    decreases s.len(),
{
    if s.len() > 0 {
        lemma_pieces_without(s.drop_last(), sep);
        lemma_pieces_not_empty(s.drop_last(), sep);
        let front = pieces(s.drop_last(), sep);
        assert forall|i: int| 0 <= i < pieces(s, sep).len() implies without(
            #[trigger] pieces(s, sep)[i],
            sep,
        ) by {
            if s.last() == sep {
                if i < front.len() {
                    assert(pieces(s, sep)[i] == front[i]);
                }
            } else if i < front.len() - 1 {
                assert(pieces(s, sep)[i] == front[i]);
            } else {
                assert(without(front[front.len() - 1], sep));
            }
        }
    }
}

proof fn lemma_pieces_of_one(s: Seq<char>, sep: char)
    requires
        without(s, sep),
    ensures
        pieces(s, sep) == seq![s],
    decreases s.len(),
{
    if s.len() > 0 {
        assert(without(s.drop_last(), sep)) by {
            assert forall|i: int| 0 <= i < s.drop_last().len() implies #[trigger] s.drop_last()[i]
                != sep by {
                assert(s.drop_last()[i] == s[i]);
            }
        }
        lemma_pieces_of_one(s.drop_last(), sep);
        assert(s.drop_last().push(s.last()) =~= s);
        assert(s[s.len() - 1] != sep);
        assert(pieces(s, sep) =~= seq![s]);
    } else {
        assert(s =~= Seq::empty());
    }
}

proof fn lemma_pieces_append(a: Seq<char>, b: Seq<char>, sep: char)
    requires
        without(b, sep),
    ensures
        pieces(a.push(sep) + b, sep) == pieces(a, sep).push(b),
    decreases b.len(),
{
    if b.len() == 0 {
        assert(a.push(sep) + b =~= a.push(sep));
        assert(a.push(sep).drop_last() =~= a);
        assert(b =~= Seq::empty());
    } else {
        let c = b.drop_last();
        assert forall|i: int| 0 <= i < c.len() implies #[trigger] c[i] != sep by {
            assert(c[i] == b[i]);
        }
        lemma_pieces_append(a, c, sep);
        let whole = a.push(sep) + b;
        assert(whole.drop_last() =~= a.push(sep) + c);
        assert(whole.last() == b.last());
        assert(b[b.len() - 1] != sep);
        assert(c.push(b.last()) =~= b);
        let front = pieces(a, sep).push(c);
        assert(front.update(front.len() - 1, front.last().push(b.last())) =~= pieces(a, sep).push(
            b,
        ));
    }
}

proof fn lemma_pieces_of_joined(parts: Seq<Seq<char>>, sep: char)
    requires
        parts.len() > 0,
        forall|i: int| 0 <= i < parts.len() ==> without(#[trigger] parts[i], sep),
    ensures
        pieces(joined(parts, sep), sep) == parts,
    decreases parts.len(),
{
    if parts.len() == 1 {
        lemma_pieces_of_one(parts[0], sep);
        assert(seq![parts[0]] =~= parts);
    } else {
        let front = parts.drop_last();
        assert forall|i: int| 0 <= i < front.len() implies without(#[trigger] front[i], sep) by {
            assert(front[i] == parts[i]);
        }
        lemma_pieces_of_joined(front, sep);
        assert(without(parts[parts.len() - 1], sep));
        lemma_pieces_append(joined(front, sep), parts.last(), sep);
        assert(front.push(parts.last()) =~= parts);
    }
}

/// No parameter of the query that is handed out says anything on output substitution, and every
/// other parameter is still there, in its place. What stands before the query is as it was, and
/// so is a URI without one.
pub proof fn law_substitution_is_left_on(uri: Seq<char>)
    ensures
        match uri.index_of_first('?') {
            Some(at) => {
                let kept = pieces(uri.skip(at + 1), '&').filter(|kv: Seq<char>| !is_pjos(kv));
                let out = pjos_stripped(uri);
                &&& out.index_of_first('?') == Some(at)
                &&& out.take(at + 1) == uri.take(at + 1)
                &&& kept.len() > 0 ==> pieces(out.skip(at + 1), '&') == kept
                &&& kept.len() == 0 ==> out.skip(at + 1) == Seq::<char>::empty()
                &&& forall|i: int| 0 <= i < kept.len() ==> !is_pjos(#[trigger] kept[i])
            },
            None => pjos_stripped(uri) == uri,
        },
{
    uri.index_of_first_ensures('?');
    if let Some(at) = uri.index_of_first('?') {
        let query = uri.skip(at + 1);
        let out = pjos_stripped(uri);
        let p = |kv: Seq<char>| !is_pjos(kv);
        let all = pieces(query, '&');
        let kept = all.filter(p);
        assert(out.take(at + 1) =~= uri.take(at + 1));
        assert(out.skip(at + 1) =~= query_kept(query));
        assert(out[at] == '?');
        assert forall|j: int| 0 <= j < at implies #[trigger] out[j] != '?' by {
            assert(out[j] == uri[j]);
        }
        out.index_of_first_ensures('?');
        lemma_pieces_without(query, '&');
        assert forall|i: int| 0 <= i < kept.len() implies !is_pjos(#[trigger] kept[i]) && without(
            kept[i],
            '&',
        ) by {
            lemma_filter_holds(all, p, kept[i]);
            assert(kept.contains(kept[i]));
            let j = choose|j: int| 0 <= j < all.len() && all[j] == kept[i];
            assert(without(all[j], '&'));
        }
        if kept.len() > 0 {
            lemma_pieces_of_joined(kept, '&');
        }
    }
}

/// A parameter says something on output substitution exactly when it is `pjos=0` or `pjos=1`, its
/// letters in either case.
pub proof fn law_switch_is_read_in_any_case(kv: Seq<char>)
    ensures
        is_pjos(kv) <==> kv.len() == 6 && (kv[0] == 'p' || kv[0] == 'P') && (kv[1] == 'j' || kv[1]
            == 'J') && (kv[2] == 'o' || kv[2] == 'O') && (kv[3] == 's' || kv[3] == 'S') && kv[4]
            == '=' && (kv[5] == '0' || kv[5] == '1'),
{
    reveal_strlit("pjos=0");
    reveal_strlit("pjos=1");
    let lower = ascii_lowered(kv);
    let off = "pjos=0"@;
    let on = "pjos=1"@;
    assert(off.len() == 6 && on.len() == 6 && lower.len() == kv.len());
    if kv.len() == 6 {
        assert forall|i: int| 0 <= i < 6 implies {
            &&& 'A' <= #[trigger] kv[i] <= 'Z' ==> lower[i] as int == kv[i] as int + 32
            &&& !('A' <= kv[i] <= 'Z') ==> lower[i] == kv[i]
        } by {
            law_lower_case_keeps_the_rest(kv, i);
        }
        assert(lower == off <==> lower[0] == off[0] && lower[1] == off[1] && lower[2] == off[2]
            && lower[3] == off[3] && lower[4] == off[4] && lower[5] == off[5]) by {
            if lower[0] == off[0] && lower[1] == off[1] && lower[2] == off[2] && lower[3] == off[3]
                && lower[4] == off[4] && lower[5] == off[5] {
                assert(lower =~= off);
            }
        }
        assert(lower == on <==> lower[0] == on[0] && lower[1] == on[1] && lower[2] == on[2]
            && lower[3] == on[3] && lower[4] == on[4] && lower[5] == on[5]) by {
            if lower[0] == on[0] && lower[1] == on[1] && lower[2] == on[2] && lower[3] == on[3]
                && lower[4] == on[4] && lower[5] == on[5] {
                assert(lower =~= on);
            }
        }
    }
}

/// Taking the switch out leaves a text without one as it is, and is done once for all.
pub proof fn law_other_parameters_stay(query: Seq<char>, kv: Seq<char>)
    requires
        !kv.contains('&'),
    ensures
        !is_pjos(kv) ==> query_kept(kv) == kv,
        is_pjos(kv) ==> query_kept(kv) == Seq::<char>::empty(),
{
    let p = |kv: Seq<char>| !is_pjos(kv);
    law_separator_parts_the_pieces(kv, query, '&');
    let one = seq![kv];
    let none = Seq::<Seq<char>>::empty();
    reveal(Seq::filter);
    assert(one.drop_last() =~= none);
    assert(none.filter(p) =~= none);
    assert(one =~= none.push(kv));
}

} // verus!
