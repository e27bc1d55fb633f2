//! Deterministic color assignment for the participants of a session.
//!
//! Every participant is assigned a unique visual identifier from a finite
//! palette. Participants are processed in seating order; each receives the
//! first color of their ranked preference list that is still free, or, when
//! every preferred color is taken, the first remaining palette color in
//! palette definition order. Assignment fails only when the palette is
//! smaller than the number of participants.

use vstd::prelude::*;

use crate::errors::Error;

verus! {

#[derive(Clone, Copy, Debug, PartialEq, Eq, Structural, Hash)]
pub enum Color {
    Green,
    Red,
    Blue,
    Amber,
    Purple,
    Brown,
    Cyan,
    Pink,
    Grey,
}

/// The full palette, in definition order.
pub open spec fn palette_seq() -> Seq<Color> {
    seq![
        Color::Green,
        Color::Red,
        Color::Blue,
        Color::Amber,
        Color::Purple,
        Color::Brown,
        Color::Cyan,
        Color::Pink,
        Color::Grey,
    ]
}

pub proof fn lemma_palette_no_duplicates()
    ensures
        palette_seq().no_duplicates(),
{
    assert(palette_seq().no_duplicates()) by {
        assert forall|i: int, j: int| 0 <= i < j < palette_seq().len() implies palette_seq()[i]
            != palette_seq()[j] by {}
    }
}

pub fn palette() -> (r: Vec<Color>)
    ensures
        r@ == palette_seq(),
{
    let mut v: Vec<Color> = Vec::new();
    v.push(Color::Green);
    v.push(Color::Red);
    v.push(Color::Blue);
    v.push(Color::Amber);
    v.push(Color::Purple);
    v.push(Color::Brown);
    v.push(Color::Cyan);
    v.push(Color::Pink);
    v.push(Color::Grey);
    proof {
        assert(v@ =~= palette_seq());
    }
    v
}

/// Index into `avail` of the first preferred color that is still available,
/// or 0 (the first remaining palette color) when no preference can be met.
pub open spec fn preferred_index(avail: Seq<Color>, prefs: Seq<Color>) -> int
    decreases prefs.len(),
{
    if prefs.len() == 0 {
        0
    } else if avail.contains(prefs[0]) {
        avail.index_of_first(prefs[0]).unwrap()
    } else {
        preferred_index(avail, prefs.drop_first())
    }
}

/// The sequence of colors assigned to a roster with the given preference
/// lists, drawing from `avail` in order.
pub open spec fn color_assignment(avail: Seq<Color>, prefs: Seq<Seq<Color>>) -> Seq<Color>
    decreases prefs.len(),
{
    if prefs.len() == 0 {
        Seq::empty()
    } else {
        let k = preferred_index(avail, prefs[0]);
        seq![avail[k]] + color_assignment(avail.remove(k), prefs.drop_first())
    }
}

pub proof fn lemma_preferred_index_in_range(avail: Seq<Color>, prefs: Seq<Color>)
    requires
        avail.len() > 0,
    ensures
        0 <= preferred_index(avail, prefs) < avail.len(),
    decreases prefs.len(),
{
    if prefs.len() == 0 {
    } else if avail.contains(prefs[0]) {
        avail.index_of_first_ensures(prefs[0]);
    } else {
        lemma_preferred_index_in_range(avail, prefs.drop_first());
    }
}

pub proof fn lemma_remove_keeps_distinct(s: Seq<Color>, i: int)
    requires
        s.no_duplicates(),
        0 <= i < s.len(),
    ensures
        s.remove(i).no_duplicates(),
        forall|x: Color| s.remove(i).contains(x) ==> s.contains(x),
        !s.remove(i).contains(s[i]),
{
    s.remove_ensures(i);
    let r = s.remove(i);
    assert forall|a: int, b: int| 0 <= a < b < r.len() implies r[a] != r[b] by {
        let oa = if a < i { a } else { a + 1 };
        let ob = if b < i { b } else { b + 1 };
        assert(r[a] == s[oa]);
        assert(r[b] == s[ob]);
    }
    assert forall|x: Color| r.contains(x) implies s.contains(x) by {
        let w = choose|w: int| 0 <= w < r.len() && r[w] == x;
        let ow = if w < i { w } else { w + 1 };
        assert(s[ow] == x);
    }
    if r.contains(s[i]) {
        let w = choose|w: int| 0 <= w < r.len() && r[w] == s[i];
        let ow = if w < i { w } else { w + 1 };
        assert(s[ow] == s[i]);
        assert(ow != i);
    }
}

/// Law: whenever the palette is duplicate-free and at least as large as the
/// roster, every participant receives a palette color and no color is given
/// out twice — even when every preference list collides. Together with the
/// fact that `color_assignment` is a function of the palette and the
/// preference lists alone, this is the totality and fairness guarantee of
/// the allocator.
pub proof fn lemma_color_assignment_total(avail: Seq<Color>, prefs: Seq<Seq<Color>>)
    requires
        avail.no_duplicates(),
        prefs.len() <= avail.len(),
    ensures
        color_assignment(avail, prefs).len() == prefs.len(),
        forall|i: int|
            0 <= i < prefs.len() ==> avail.contains(#[trigger] color_assignment(avail, prefs)[i]),
        color_assignment(avail, prefs).no_duplicates(),
    decreases prefs.len(),
{
    if prefs.len() == 0 {
    } else {
        let k = preferred_index(avail, prefs[0]);
        lemma_preferred_index_in_range(avail, prefs[0]);
        lemma_remove_keeps_distinct(avail, k);
        let rest = color_assignment(avail.remove(k), prefs.drop_first());
        lemma_color_assignment_total(avail.remove(k), prefs.drop_first());
        let whole = color_assignment(avail, prefs);
        assert(whole == seq![avail[k]] + rest);
        assert forall|i: int| 0 <= i < prefs.len() implies avail.contains(#[trigger] whole[i]) by {
            if i == 0 {
                assert(whole[0] == avail[k]);
            } else {
                assert(whole[i] == rest[i - 1]);
                assert(avail.remove(k).contains(rest[i - 1]));
            }
        }
        assert forall|a: int, b: int| 0 <= a < b < whole.len() implies whole[a] != whole[b] by {
            if a == 0 {
                assert(whole[b] == rest[b - 1]);
                assert(avail.remove(k).contains(rest[b - 1]));
            } else {
                assert(whole[a] == rest[a - 1]);
                assert(whole[b] == rest[b - 1]);
            }
        }
    }
}

/// The preference lists of a roster, as a sequence of sequences.
pub open spec fn prefs_view(prefs: Seq<Vec<Color>>) -> Seq<Seq<Color>> {
    prefs.map_values(|p: Vec<Color>| p@)
}

/// First index of `c` in `v`, if any.
fn find_color(v: &Vec<Color>, c: Color) -> (r: Option<usize>)
    ensures
        match r {
            Some(k) => 0 <= k < v@.len() && v@[k as int] == c && v@.index_of_first(c) == Some(
                k as int,
            ),
            None => !v@.contains(c),
        },
{
    let mut j: usize = 0;
    while j < v.len()
        invariant
            j <= v@.len(),
            forall|jj: int| 0 <= jj < j ==> v@[jj] != c,
        decreases v@.len() - j,
    {
        if v[j] == c {
            proof {
                v@.index_of_first_ensures(c);
                let f = v@.index_of_first(c).unwrap();
                if f < j {
                    assert(v@[f] == c);
                }
                if f > j {
                    assert(v@[j as int] != c);
                }
            }
            return Some(j);
        }
        j += 1;
    }
    proof {
        if v@.contains(c) {
            let w = choose|w: int| 0 <= w < v@.len() && v@[w] == c;
        }
    }
    None
}

proof fn lemma_preferred_index_skip(avail: Seq<Color>, prefs: Seq<Color>, j: int)
    requires
        0 <= j <= prefs.len(),
        forall|jj: int| 0 <= jj < j ==> !avail.contains(#[trigger] prefs[jj]),
    ensures
        preferred_index(avail, prefs) == preferred_index(avail, prefs.skip(j)),
    decreases j,
{
    if j == 0 {
        assert(prefs.skip(0) =~= prefs);
    } else {
        assert(!avail.contains(prefs[0]));
        assert(prefs.drop_first() =~= prefs.skip(1));
        lemma_preferred_index_skip(avail, prefs.drop_first(), j - 1);
        assert(prefs.drop_first().skip(j - 1) =~= prefs.skip(j));
    }
}

/// Index into `avail` of the color the next participant receives, given
/// their ranked preference list.
fn pick_available(avail: &Vec<Color>, prefs: &Vec<Color>) -> (k: usize)
    requires
        avail@.len() > 0,
    ensures
        k as int == preferred_index(avail@, prefs@),
        k < avail@.len(),
{
    let mut j: usize = 0;
    while j < prefs.len()
        invariant
            j <= prefs@.len(),
            avail@.len() > 0,
            forall|jj: int| 0 <= jj < j ==> !avail@.contains(#[trigger] prefs@[jj]),
        decreases prefs@.len() - j,
    {
        match find_color(avail, prefs[j]) {
            Some(k) => {
                proof {
                    lemma_preferred_index_skip(avail@, prefs@, j as int);
                    let s = prefs@.skip(j as int);
                    assert(s[0] == prefs@[j as int]);
                    assert(avail@.contains(s[0]));
                    avail@.index_of_first_ensures(s[0]);
                }
                return k;
            },
            None => {
                j += 1;
            },
        }
    }
    proof {
        lemma_preferred_index_skip(avail@, prefs@, prefs@.len() as int);
        assert(prefs@.skip(prefs@.len() as int).len() == 0);
    }
    0
}

/// Assign one color to each participant, in seating order.
///
/// The result is `color_assignment(palette@, ...)`, a function of the
/// palette and the preference lists alone, so the assignment is
/// deterministic: the same palette, preferences and processing order always
/// produce the same colors. Fails exactly when the palette is smaller than
/// the roster.
pub fn choose_colors(palette: &Vec<Color>, prefs: &Vec<Vec<Color>>) -> (r: Result<
    Vec<Color>,
    Error,
>)
    requires
        palette@.no_duplicates(),
    ensures
        r is Ok <==> prefs@.len() <= palette@.len(),
        r is Ok ==> r->Ok_0@ == color_assignment(palette@, prefs_view(prefs@)),
{
    if prefs.len() > palette.len() {
        return Err(
            Error::UserError(String::from_str("not enough colors for the number of players")),
        );
    }
    let ghost pv = prefs_view(prefs@);
    let mut avail: Vec<Color> = Vec::new();
    let mut k: usize = 0;
    while k < palette.len()
        invariant
            k <= palette@.len(),
            avail@ == palette@.take(k as int),
        decreases palette@.len() - k,
    {
        avail.push(palette[k]);
        proof {
            assert(avail@ =~= palette@.take(k + 1));
        }
        k += 1;
    }
    proof {
        assert(avail@ =~= palette@);
    }
    let mut out: Vec<Color> = Vec::new();
    proof {
        assert(pv.skip(0) =~= pv);
        assert(out@ + color_assignment(palette@, pv) =~= color_assignment(palette@, pv));
    }
    let mut i: usize = 0;
    while i < prefs.len()
        invariant
            i <= prefs@.len(),
            pv == prefs_view(prefs@),
            pv.len() == prefs@.len(),
            avail@.no_duplicates(),
            prefs@.len() - i <= avail@.len(),
            out@.len() == i,
            out@ + color_assignment(avail@, pv.skip(i as int)) == color_assignment(palette@, pv),
        decreases prefs@.len() - i,
    {
        let k = pick_available(&avail, &prefs[i]);
        let ghost old_avail = avail@;
        let c = avail.remove(k);
        out.push(c);
        proof {
            let s = pv.skip(i as int);
            assert(s[0] == prefs@[i as int]@);
            assert(s.drop_first() =~= pv.skip(i + 1));
            assert(color_assignment(old_avail, s) == seq![old_avail[k as int]]
                + color_assignment(old_avail.remove(k as int), s.drop_first()));
            lemma_remove_keeps_distinct(old_avail, k as int);
            assert(out@ + color_assignment(avail@, pv.skip(i + 1)) == color_assignment(
                palette@,
                pv,
            )) by {
                assert(out@.drop_last() + color_assignment(old_avail, s) == color_assignment(
                    palette@,
                    pv,
                ));
                assert(out@.drop_last().push(old_avail[k as int]) =~= out@);
                assert(out@ + color_assignment(avail@, pv.skip(i + 1)) =~= out@.drop_last()
                    + color_assignment(old_avail, s));
            }
        }
        i += 1;
    }
    proof {
        assert(pv.skip(prefs@.len() as int).len() == 0);
        assert(out@ + color_assignment(avail@, pv.skip(prefs@.len() as int)) =~= out@);
    }
    Ok(out)
}

} // verus!
