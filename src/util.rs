//! Decoding a counted run of items with a decoder of one item.
use crate::parser::{after, decodes, lemma_advance_twice, lemma_repeat_step, repeat, Decoded, Grammar, ParseData, ParseError};
use vstd::prelude::*;

verus! {

/// The views of some items.
#[verifier::opaque]
pub open spec fn views<T: View>(v: Seq<T>) -> Seq<T::V> {
    v.map_values(|t: T| t@)
}

/// What a decoder that only skips does: on success, the cursor after the
/// bytes that grammar `g` spans.
pub open spec fn skips<'a, T>(i: ParseData<'a>, r: Result<ParseData<'a>, ParseError>, g: Decoded<T>) -> bool {
    match r {
        Ok(next) => g matches Ok((_, n)) && i.advanced(next, n),
        Err(e) => g == Decoded::<T>::Err(e),
    }
}

/// `n` items, each decoded by `f`, which follows grammar `g`.
pub(crate) fn count<'a, T, F>(f: F, g: Ghost<Grammar<T>>, i: ParseData<'a>, n: usize) -> (r: Result<(ParseData<'a>, Vec<T>), ParseError>)
    where
        F: Fn(ParseData<'a>) -> Result<(ParseData<'a>, T), ParseError>,
    requires
        forall|x: ParseData<'a>| call_requires(f, (x,)),
        forall|x: ParseData<'a>, y: Result<(ParseData<'a>, T), ParseError>|
            call_ensures(f, (x,), y) ==> decodes(x, y, g@(x.bytes(), x.start())),
    ensures
        match r {
            Ok((next, v)) => decodes(i, Ok((next, v@)), repeat(g@, i.bytes(), i.start(), n as nat)),
            Err(e) => repeat(g@, i.bytes(), i.start(), n as nat) == Decoded::<Seq<T>>::Err(e),
        },
{
    let mut input = i;
    let mut res: Vec<T> = Vec::new();
    let mut k: usize = 0;
    let ghost consumed: int = 0;
    assert(i.bytes().skip(0) =~= i.bytes());
    while k < n
        invariant
            k <= n,
            forall|x: ParseData<'a>| call_requires(f, (x,)),
            forall|x: ParseData<'a>, y: Result<(ParseData<'a>, T), ParseError>|
                call_ensures(f, (x,), y) ==> decodes(x, y, g@(x.bytes(), x.start())),
            i.advanced(input, consumed),
            repeat(g@, i.bytes(), i.start(), n as nat) == after(
                res@,
                consumed,
                repeat(g@, input.bytes(), input.start(), (n - k) as nat),
            ),
        decreases n - k,
    {
        let ghost before = input;
        let (next, v) = match f(input) {
            Ok(x) => x,
            Err(e) => return Err(e),
        };
        proof {
            let m = g@(before.bytes(), before.start())->Ok_0.1;
            lemma_repeat_step(g@, res@, consumed, before.bytes(), before.start(), (n - k) as nat);
            lemma_advance_twice(i, before, next, consumed, m);
            consumed = consumed + m;
        }
        res.push(v);
        input = next;
        k += 1;
    }
    assert(res@ + Seq::<T>::empty() =~= res@);
    Ok((input, res))
}

/// As `count`, for items whose views are what the grammar yields.
pub(crate) fn count_view<'a, T: View, F>(f: F, g: Ghost<Grammar<T::V>>, i: ParseData<'a>, n: usize) -> (r: Result<(ParseData<'a>, Vec<T>), ParseError>)
    where
        F: Fn(ParseData<'a>) -> Result<(ParseData<'a>, T), ParseError>,
    requires
        forall|x: ParseData<'a>| call_requires(f, (x,)),
        forall|x: ParseData<'a>, y: Result<(ParseData<'a>, T), ParseError>|
            call_ensures(f, (x,), y) ==> crate::parser::decodes_view(x, y, g@(x.bytes(), x.start())),
    ensures
        match r {
            Ok((next, v)) => decodes(i, Ok((next, views(v@))), repeat(g@, i.bytes(), i.start(), n as nat)),
            Err(e) => repeat(g@, i.bytes(), i.start(), n as nat) == Decoded::<Seq<T::V>>::Err(e),
        },
{
    let mut input = i;
    let mut res: Vec<T> = Vec::new();
    let mut k: usize = 0;
    let ghost consumed: int = 0;
    assert(i.bytes().skip(0) =~= i.bytes());
    reveal(views);
    assert(views(res@) =~= Seq::<T::V>::empty());
    while k < n
        invariant
            k <= n,
            forall|x: ParseData<'a>| call_requires(f, (x,)),
            forall|x: ParseData<'a>, y: Result<(ParseData<'a>, T), ParseError>|
                call_ensures(f, (x,), y) ==> crate::parser::decodes_view(x, y, g@(x.bytes(), x.start())),
            i.advanced(input, consumed),
            repeat(g@, i.bytes(), i.start(), n as nat) == after(
                views(res@),
                consumed,
                repeat(g@, input.bytes(), input.start(), (n - k) as nat),
            ),
        decreases n - k,
    {
        let ghost before = input;
        let (next, v) = match f(input) {
            Ok(x) => x,
            Err(e) => return Err(e),
        };
        proof {
            let m = g@(before.bytes(), before.start())->Ok_0.1;
            lemma_repeat_step(g@, views(res@), consumed, before.bytes(), before.start(), (n - k) as nat);
            lemma_advance_twice(i, before, next, consumed, m);
            consumed = consumed + m;
            reveal(views);
            assert(views(res@.push(v)) =~= views(res@).push(v@));
        }
        res.push(v);
        input = next;
        k += 1;
    }
    assert(views(res@) + Seq::<T::V>::empty() =~= views(res@));
    Ok((input, res))
}

/// `n` items skipped with `f`, which spans what grammar `g` spans.
pub(crate) fn skip_count<'a, T, F>(f: F, g: Ghost<Grammar<T>>, i: ParseData<'a>, n: usize) -> (r: Result<ParseData<'a>, ParseError>)
    where
        F: Fn(ParseData<'a>) -> Result<ParseData<'a>, ParseError>,
    requires
        forall|x: ParseData<'a>| call_requires(f, (x,)),
        forall|x: ParseData<'a>, y: Result<ParseData<'a>, ParseError>|
            call_ensures(f, (x,), y) ==> skips(x, y, g@(x.bytes(), x.start())),
    ensures
        skips(i, r, repeat(g@, i.bytes(), i.start(), n as nat)),
{
    let mut input = i;
    let mut k: usize = 0;
    let ghost consumed: int = 0;
    let ghost acc: Seq<T> = Seq::empty();
    assert(i.bytes().skip(0) =~= i.bytes());
    while k < n
        invariant
            k <= n,
            forall|x: ParseData<'a>| call_requires(f, (x,)),
            forall|x: ParseData<'a>, y: Result<ParseData<'a>, ParseError>|
                call_ensures(f, (x,), y) ==> skips(x, y, g@(x.bytes(), x.start())),
            i.advanced(input, consumed),
            repeat(g@, i.bytes(), i.start(), n as nat) == after(
                acc,
                consumed,
                repeat(g@, input.bytes(), input.start(), (n - k) as nat),
            ),
        decreases n - k,
    {
        let ghost before = input;
        let next = match f(input) {
            Ok(x) => x,
            Err(e) => return Err(e),
        };
        proof {
            let (v, m) = g@(before.bytes(), before.start())->Ok_0;
            lemma_repeat_step(g@, acc, consumed, before.bytes(), before.start(), (n - k) as nat);
            lemma_advance_twice(i, before, next, consumed, m);
            consumed = consumed + m;
            acc = acc.push(v);
        }
        input = next;
        k += 1;
    }
    assert(acc + Seq::<T>::empty() =~= acc);
    Ok(input)
}

} // verus!
