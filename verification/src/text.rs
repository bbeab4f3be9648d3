//! Text helpers: decimal rendering of integers, the trimming that the
//! launcher applies to sizes and device paths, and the sequence
//! combinators that the argument lists are specified with.

use vstd::prelude::*;

verus! {

/// Concatenation of `f(x)` for every item `x` of `items`, in order.
pub open spec fn flat_map<A, B>(items: Seq<A>, f: spec_fn(A) -> Seq<B>) -> Seq<B>
    decreases items.len(),
{
    if items.len() == 0 {
        Seq::empty()
    } else {
        flat_map(items.drop_last(), f) + f(items.last())
    }
}

/// The numbers `0, 1, .., n - 1`.
pub open spec fn counters(n: nat) -> Seq<nat> {
    Seq::new(n, |i: int| i as nat)
}

/// Each item of `s` beside its position.
pub open spec fn enumerate<A>(s: Seq<A>) -> Seq<(nat, A)> {
    Seq::new(s.len(), |i: int| (i as nat, s[i]))
}

/// Taking one more item of a sequence appends that item's image.
pub proof fn lemma_flat_map_take<A, B>(items: Seq<A>, i: int, f: spec_fn(A) -> Seq<B>)
    requires
        0 <= i < items.len(),
    ensures
        flat_map(items.take(i + 1), f) == flat_map(items.take(i), f) + f(items[i]),
{
    assert(items.take(i + 1).drop_last() =~= items.take(i));
}

/// The image of a concatenation is the concatenation of the images.
pub proof fn lemma_flat_map_concat<A, B>(a: Seq<A>, b: Seq<A>, f: spec_fn(A) -> Seq<B>)
    ensures
        flat_map(a + b, f) == flat_map(a, f) + flat_map(b, f),
    decreases b.len(),
{
    if b.len() == 0 {
        assert(a + b =~= a);
        assert(flat_map(a, f) + flat_map(b, f) =~= flat_map(a, f));
    } else {
        lemma_flat_map_concat(a, b.drop_last(), f);
        assert((a + b).drop_last() =~= a + b.drop_last());
        assert(flat_map(a, f) + (flat_map(b.drop_last(), f) + f(b.last())) =~= (flat_map(a, f)
            + flat_map(b.drop_last(), f)) + f(b.last()));
    }
}

/// Two sequences whose items have equal images, position by position, have
/// equal results.
pub proof fn lemma_flat_map_congruent<A, B>(
    a: Seq<A>,
    b: Seq<A>,
    f: spec_fn(A) -> Seq<B>,
    g: spec_fn(A) -> Seq<B>,
)
    requires
        a.len() == b.len(),
        forall|i: int| 0 <= i < a.len() ==> f(a[i]) == g(b[i]),
    ensures
        flat_map(a, f) == flat_map(b, g),
    decreases a.len(),
{
    if a.len() > 0 {
        lemma_flat_map_congruent(a.drop_last(), b.drop_last(), f, g);
        assert(f(a.last()) == g(b.last()));
    }
}

/// When each item's image is the item's `h` if it satisfies `p` and nothing
/// otherwise, the result is the items that satisfy `p`, each mapped by `h`,
/// in order.
pub proof fn lemma_flat_map_select<A, B>(
    items: Seq<A>,
    p: spec_fn(A) -> bool,
    h: spec_fn(A) -> B,
    f: spec_fn(A) -> Seq<B>,
)
    requires
        forall|x: A| #[trigger] f(x) == (if p(x) { seq![h(x)] } else { Seq::<B>::empty() }),
    ensures
        flat_map(items, f) == items.filter(p).map_values(h),
    decreases items.len(),
{
    reveal(Seq::filter);
    if items.len() == 0 {
        assert(items.filter(p).map_values(h) =~= Seq::<B>::empty());
    } else {
        lemma_flat_map_select(items.drop_last(), p, h, f);
        let rest = items.drop_last().filter(p);
        assert(f(items.last()) == (if p(items.last()) { seq![h(items.last())] } else { Seq::<B>::empty() }));
        if p(items.last()) {
            assert(items.filter(p) == rest.push(items.last()));
            assert(rest.push(items.last()).map_values(h) =~= rest.map_values(h).push(
                h(items.last()),
            ));
            assert(flat_map(items, f) =~= rest.map_values(h).push(h(items.last())));
        } else {
            assert(items.filter(p) == rest);
            assert(flat_map(items, f) =~= rest.map_values(h));
        }
    }
}

/// A property of every item of every image holds of every item of the
/// result.
pub proof fn lemma_flat_map_all<A, B>(items: Seq<A>, f: spec_fn(A) -> Seq<B>, p: spec_fn(B) -> bool)
    requires
        forall|x: A, i: int| 0 <= i < f(x).len() ==> #[trigger] p(f(x)[i]),
    ensures
        forall|k: int| 0 <= k < flat_map(items, f).len() ==> #[trigger] p(flat_map(items, f)[k]),
    decreases items.len(),
{
    if items.len() > 0 {
        lemma_flat_map_all(items.drop_last(), f, p);
        let front = flat_map(items.drop_last(), f);
        assert forall|k: int| 0 <= k < flat_map(items, f).len() implies #[trigger] p(
            flat_map(items, f)[k],
        ) by {
            if k >= front.len() {
                assert(flat_map(items, f)[k] == f(items.last())[k - front.len()]);
            } else {
                assert(flat_map(items, f)[k] == front[k]);
            }
        }
    }
}

/// When every image has length `k`, the result has `k` items per input item.
pub proof fn lemma_flat_map_uniform_len<A, B>(items: Seq<A>, f: spec_fn(A) -> Seq<B>, k: nat)
    requires
        forall|x: A| #[trigger] f(x).len() == k,
    ensures
        flat_map(items, f).len() == items.len() * k,
    decreases items.len(),
{
    if items.len() > 0 {
        lemma_flat_map_uniform_len(items.drop_last(), f, k);
        assert((items.len() - 1) * k + k == items.len() * k) by (nonlinear_arith);
    }
}

/// When every image has length `k`, item `i` of the input owns positions
/// `k * i .. k * i + k` of the result.
pub proof fn lemma_flat_map_uniform_index<A, B>(
    items: Seq<A>,
    f: spec_fn(A) -> Seq<B>,
    k: nat,
    i: int,
    j: int,
)
    requires
        forall|x: A| #[trigger] f(x).len() == k,
        0 <= i < items.len(),
        0 <= j < k,
    ensures
        flat_map(items, f)[k * i + j] == f(items[i])[j],
    decreases items.len(),
{
    let n = items.len() - 1;
    lemma_flat_map_uniform_len(items.drop_last(), f, k);
    assert(flat_map(items.drop_last(), f).len() == n * k);
    if i < n {
        lemma_flat_map_uniform_index(items.drop_last(), f, k, i, j);
        assert(k * i + j < n * k) by (nonlinear_arith)
            requires
                0 <= i < n,
                0 <= j < k,
        ;
    } else {
        assert(k * i == n * k) by (nonlinear_arith)
            requires
                i == n,
        ;
    }
}

/// The character of a decimal digit.
pub open spec fn digit_char(d: nat) -> char {
    if d == 0 {
        '0'
    } else if d == 1 {
        '1'
    } else if d == 2 {
        '2'
    } else if d == 3 {
        '3'
    } else if d == 4 {
        '4'
    } else if d == 5 {
        '5'
    } else if d == 6 {
        '6'
    } else if d == 7 {
        '7'
    } else if d == 8 {
        '8'
    } else {
        '9'
    }
}

/// The decimal representation of `n`, most significant digit first, with no
/// leading zeros (as `{}` formats an unsigned integer).
pub open spec fn decimal(n: nat) -> Seq<char>
    decreases n,
{
    if n < 10 {
        seq![digit_char(n)]
    } else {
        decimal(n / 10).push(digit_char(n % 10))
    }
}

/// Distinct numbers have distinct decimal representations.
pub proof fn lemma_decimal_injective(a: nat, b: nat)
    requires
        decimal(a) == decimal(b),
    ensures
        a == b,
    decreases a,
{
    lemma_decimal_len(a);
    lemma_decimal_len(b);
    if a < 10 && b < 10 {
        assert(decimal(a)[0] == digit_char(a));
        assert(decimal(b)[0] == digit_char(b));
    } else if a >= 10 && b >= 10 {
        assert(decimal(a).last() == digit_char(a % 10));
        assert(decimal(b).last() == digit_char(b % 10));
        assert(decimal(a).drop_last() =~= decimal(a / 10));
        assert(decimal(b).drop_last() =~= decimal(b / 10));
        lemma_decimal_injective(a / 10, b / 10);
    }
}

/// A number has a one-digit representation exactly when it is below ten.
pub proof fn lemma_decimal_len(n: nat)
    ensures
        decimal(n).len() >= 1,
        n < 10 <==> decimal(n).len() == 1,
    decreases n,
{
    if n >= 10 {
        lemma_decimal_len(n / 10);
    }
}

/// The one-character string of a decimal digit.
fn digit_str(d: usize) -> (s: &'static str)
    requires
        d < 10,
    ensures
        s@ == seq![digit_char(d as nat)],
{
    match d {
        0 => {
            proof {
                reveal_strlit("0");
            }
            "0"
        },
        1 => {
            proof {
                reveal_strlit("1");
            }
            "1"
        },
        2 => {
            proof {
                reveal_strlit("2");
            }
            "2"
        },
        3 => {
            proof {
                reveal_strlit("3");
            }
            "3"
        },
        4 => {
            proof {
                reveal_strlit("4");
            }
            "4"
        },
        5 => {
            proof {
                reveal_strlit("5");
            }
            "5"
        },
        6 => {
            proof {
                reveal_strlit("6");
            }
            "6"
        },
        7 => {
            proof {
                reveal_strlit("7");
            }
            "7"
        },
        8 => {
            proof {
                reveal_strlit("8");
            }
            "8"
        },
        _ => {
            proof {
                reveal_strlit("9");
            }
            "9"
        },
    }
}

/// Renders `n` in decimal, as `format!("{}", n)` does.
pub fn decimal_string(n: usize) -> (s: String)
    ensures
        s@ == decimal(n as nat),
    decreases n,
{
    if n < 10 {
        digit_str(n).to_owned()
    } else {
        let mut s = decimal_string(n / 10);
        s.append(digit_str(n % 10));
        s
    }
}

/// `s` with every trailing `c` removed (what `str::trim_end_matches(c)`
/// returns for a character pattern).
pub open spec fn trim_end(s: Seq<char>, c: char) -> Seq<char>
    decreases s.len(),
{
    if s.len() > 0 && s.last() == c {
        trim_end(s.drop_last(), c)
    } else {
        s
    }
}

/// `s` with every leading copy of `p` removed (what
/// `str::trim_start_matches(p)` returns for a string pattern; an empty
/// pattern removes nothing).
pub open spec fn trim_start(s: Seq<char>, p: Seq<char>) -> Seq<char>
    decreases s.len(),
{
    if p.len() > 0 && p.len() <= s.len() && s.subrange(0, p.len() as int) == p {
        trim_start(s.subrange(p.len() as int, s.len() as int), p)
    } else {
        s
    }
}

/// What `trim_end` keeps is a prefix of `s` that does not end in `c`, and
/// everything it drops is `c`.
pub proof fn lemma_trim_end(s: Seq<char>, c: char)
    ensures
        trim_end(s, c).len() <= s.len(),
        trim_end(s, c) == s.take(trim_end(s, c).len() as int),
        trim_end(s, c).len() == 0 || trim_end(s, c).last() != c,
        forall|i: int| trim_end(s, c).len() <= i < s.len() ==> s[i] == c,
    decreases s.len(),
{
    if s.len() > 0 && s.last() == c {
        lemma_trim_end(s.drop_last(), c);
        let r = trim_end(s, c);
        assert(r == trim_end(s.drop_last(), c));
        assert(s.drop_last().take(r.len() as int) =~= s.take(r.len() as int));
        assert forall|i: int| r.len() <= i < s.len() implies s[i] == c by {
            if i < s.len() - 1 {
                assert(s.drop_last()[i] == s[i]);
            }
        }
    } else {
        assert(s.take(s.len() as int) =~= s);
    }
}

/// Trimming twice trims no more than trimming once.
pub proof fn lemma_trim_end_idempotent(s: Seq<char>, c: char)
    ensures
        trim_end(trim_end(s, c), c) == trim_end(s, c),
{
    lemma_trim_end(s, c);
}

/// What `trim_start` keeps no longer starts with `p`, when `p` is not empty.
pub proof fn lemma_trim_start(s: Seq<char>, p: Seq<char>)
    ensures
        trim_start(s, p).len() <= s.len(),
        p.len() > 0 ==> !(p.len() <= trim_start(s, p).len() && trim_start(s, p).subrange(
            0,
            p.len() as int,
        ) == p),
    decreases s.len(),
{
    if p.len() > 0 && p.len() <= s.len() && s.subrange(0, p.len() as int) == p {
        lemma_trim_start(s.subrange(p.len() as int, s.len() as int), p);
    }
}

/// Trimming twice trims no more than trimming once.
pub proof fn lemma_trim_start_idempotent(s: Seq<char>, p: Seq<char>)
    ensures
        trim_start(trim_start(s, p), p) == trim_start(s, p),
{
    lemma_trim_start(s, p);
}

/// Removes every trailing `c` from `s`.
pub fn trim_end_matches(s: &str, c: char) -> (r: String)
    ensures
        r@ == trim_end(s@, c),
{
    let n = s.unicode_len();
    let mut end = n;
    assert(s@.subrange(0, n as int) =~= s@);
    while end > 0 && s.get_char(end - 1) == c
        invariant
            n == s@.len(),
            end <= n,
            trim_end(s@.subrange(0, end as int), c) == trim_end(s@, c),
        decreases end,
    {
        assert(s@.subrange(0, end as int).drop_last() =~= s@.subrange(0, end - 1));
        end = end - 1;
    }
    if end == n {
        assert(s@.subrange(0, end as int) =~= s@);
    }
    s.substring_char(0, end).to_owned()
}

/// Whether `p` occurs in `s` at character position `start`.
fn occurs_at(s: &str, start: usize, p: &str) -> (b: bool)
    requires
        start + p@.len() <= s@.len() <= usize::MAX,
    ensures
        b == (s@.subrange(start as int, start + p@.len()) == p@),
{
    let k = p.unicode_len();
    let mut j: usize = 0;
    while j < k
        invariant
            k == p@.len(),
            start + k <= s@.len() <= usize::MAX,
            j <= k,
            forall|i: int| 0 <= i < j ==> s@[start + i] == p@[i],
        decreases k - j,
    {
        if s.get_char(start + j) != p.get_char(j) {
            assert(s@.subrange(start as int, start + p@.len())[j as int] != p@[j as int]);
            return false;
        }
        j = j + 1;
    }
    assert(s@.subrange(start as int, start + p@.len()) =~= p@);
    true
}

/// Whether `a` and `b` hold the same characters.
pub fn same_text(a: &str, b: &str) -> (r: bool)
    ensures
        r == (a@ == b@),
{
    let n = a.unicode_len();
    let k = b.unicode_len();
    if n != k {
        return false;
    }
    let r = occurs_at(a, 0, b);
    assert(a@.subrange(0, k as int) =~= a@);
    r
}

/// Whether `items` holds the text `x`.
pub fn contains_text(items: &Vec<String>, x: &str) -> (r: bool)
    ensures
        r == items.deep_view().contains(x@),
{
    let mut i: usize = 0;
    while i < items.len()
        invariant
            i <= items.len(),
            forall|j: int| 0 <= j < i ==> items[j]@ != x@,
        decreases items.len() - i,
    {
        if same_text(items[i].as_str(), x) {
            assert(items.deep_view()[i as int] == x@);
            return true;
        }
        i = i + 1;
    }
    assert(!items.deep_view().contains(x@)) by {
        if items.deep_view().contains(x@) {
            let j = choose|j: int| 0 <= j < items.deep_view().len() && items.deep_view()[j] == x@;
            assert(items[j]@ == x@);
        }
    }
    false
}

/// Removes every leading copy of `p` from `s`.
pub fn trim_start_matches(s: &str, p: &str) -> (r: String)
    ensures
        r@ == trim_start(s@, p@),
{
    let n = s.unicode_len();
    let k = p.unicode_len();
    if k == 0 {
        return s.to_owned();
    }
    let mut start: usize = 0;
    assert(s@.subrange(0, n as int) =~= s@);
    while k <= n - start && occurs_at(s, start, p)
        invariant
            n == s@.len(),
            k == p@.len(),
            k > 0,
            start <= n,
            trim_start(s@.subrange(start as int, n as int), p@) == trim_start(s@, p@),
        decreases n - start,
    {
        let ghost rest = s@.subrange(start as int, n as int);
        assert(rest.subrange(0, k as int) =~= s@.subrange(start as int, start + k));
        assert(rest.subrange(k as int, rest.len() as int) =~= s@.subrange(start + k, n as int));
        start = start + k;
    }
    proof {
        let rest = s@.subrange(start as int, n as int);
        if k <= n - start {
            assert(rest.subrange(0, k as int) =~= s@.subrange(start as int, start + k));
        }
    }
    s.substring_char(start, n).to_owned()
}

} // verus!
