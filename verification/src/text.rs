//! Text helpers: equality, the order of strings, and decimal rendering.
//!
//! Strings are modelled by their characters (`Seq<char>`). Their order is the
//! lexicographic order of their UTF-8 encodings, byte by byte, which is the
//! order Rust gives to `str` and which agrees with the order of code points.

use vstd::prelude::*;
use vstd::string::*;
use vstd::utf8::*;

verus! {

/// The outcome of comparing two values.
#[derive(Clone, Copy, Debug, PartialEq, Eq, Structural)]
pub enum Rank {
    /// The first value sorts before the second.
    Lower,
    /// Neither sorts before the other.
    Level,
    /// The first value sorts after the second.
    Higher,
}

/// The first `k` bytes of `x` and `y` agree.
pub open spec fn common_prefix(x: Seq<u8>, y: Seq<u8>, k: int) -> bool {
    &&& 0 <= k <= x.len()
    &&& k <= y.len()
    &&& forall|j: int| 0 <= j < k ==> x[j] == y[j]
}

/// `x` comes strictly before `y` in lexicographic order: after a common
/// prefix either `x` ends while `y` goes on, or `x` holds the smaller byte.
pub open spec fn bytes_before(x: Seq<u8>, y: Seq<u8>) -> bool {
    exists|k: int|
        #[trigger] common_prefix(x, y, k) && (k < y.len() && (k == x.len() || x[k] < y[k]))
}

/// Three-way lexicographic comparison of byte sequences.
pub open spec fn bytes_rank(x: Seq<u8>, y: Seq<u8>) -> Rank {
    if bytes_before(x, y) {
        Rank::Lower
    } else if bytes_before(y, x) {
        Rank::Higher
    } else {
        Rank::Level
    }
}

/// Three-way comparison of two texts by their UTF-8 encodings.
pub open spec fn text_rank(a: Seq<char>, b: Seq<char>) -> Rank {
    bytes_rank(encode_utf8(a), encode_utf8(b))
}

/// Three-way comparison of optional integers; an absent value sorts below
/// every present one.
pub open spec fn opt_int_rank(a: Option<int>, b: Option<int>) -> Rank {
    match (a, b) {
        (None, None) => Rank::Level,
        (None, Some(_)) => Rank::Lower,
        (Some(_), None) => Rank::Higher,
        (Some(x), Some(y)) => if x < y {
            Rank::Lower
        } else if x > y {
            Rank::Higher
        } else {
            Rank::Level
        },
    }
}

/// Three-way comparison of optional texts; an absent text sorts below every
/// present one.
pub open spec fn opt_text_rank(a: Option<Seq<char>>, b: Option<Seq<char>>) -> Rank {
    match (a, b) {
        (None, None) => Rank::Level,
        (None, Some(_)) => Rank::Lower,
        (Some(_), None) => Rank::Higher,
        (Some(x), Some(y)) => text_rank(x, y),
    }
}

/// The characters of an optional string.
pub open spec fn opt_text(s: Option<String>) -> Option<Seq<char>> {
    match s {
        Some(t) => Some(t@),
        None => None,
    }
}

/// An optional machine integer as a mathematical one.
pub open spec fn opt_int(v: Option<i32>) -> Option<int> {
    match v {
        Some(n) => Some(n as int),
        None => None,
    }
}

/// Whether two strings hold the same characters.
pub fn same_text(a: &String, b: &String) -> (r: bool)
    ensures
        r == (a@ == b@),
{
    *a == *b
}

/// Whether `s` holds exactly the characters of `lit`.
pub fn is_text(s: &String, lit: &str) -> (r: bool)
    ensures
        r == (s@ == lit@),
{
    let t = String::from_str(lit);
    *s == t
}

/// Whether an optional string is present and holds exactly the characters of
/// `lit`.
pub fn opt_is_text(s: &Option<String>, lit: &str) -> (r: bool)
    ensures
        r == (opt_text(*s) == Some(lit@)),
{
    match s {
        Some(t) => is_text(t, lit),
        None => false,
    }
}

/// Whether two optional strings are both absent or hold the same characters.
pub fn same_opt_text(a: &Option<String>, b: &Option<String>) -> (r: bool)
    ensures
        r == (opt_text(*a) == opt_text(*b)),
{
    match (a, b) {
        (Some(x), Some(y)) => same_text(x, y),
        (None, None) => true,
        _ => false,
    }
}

/// A copy of an optional string.
pub fn clone_opt_text(s: &Option<String>) -> (r: Option<String>)
    ensures
        r == *s,
{
    match s {
        Some(t) => Some(t.clone()),
        None => None,
    }
}

/// Compares two byte slices lexicographically.
pub fn rank_bytes(x: &[u8], y: &[u8]) -> (r: Rank)
    ensures
        r == bytes_rank(x@, y@),
{
    let mut i: usize = 0;
    while i < x.len() && i < y.len()
        invariant
            common_prefix(x@, y@, i as int),
        decreases x.len() - i,
    {
        if x[i] < y[i] {
            return Rank::Lower;
        }
        if x[i] > y[i] {
            assert(common_prefix(y@, x@, i as int));
            assert(!bytes_before(x@, y@)) by {
                if bytes_before(x@, y@) {
                    let k = choose|k: int|
                        #[trigger] common_prefix(x@, y@, k) && (k < y@.len() && (k == x@.len()
                            || x@[k] < y@[k]));
                    if k < i {
                    } else if k > i {
                        assert(x@[i as int] == y@[i as int]);
                    }
                }
            }
            return Rank::Higher;
        }
        i = i + 1;
    }
    proof {
        let n = i as int;
        assert(common_prefix(y@, x@, n));
        if n < y@.len() {
            assert(n == x@.len());
        } else {
            assert(!bytes_before(x@, y@)) by {
                if bytes_before(x@, y@) {
                    let k = choose|k: int|
                        #[trigger] common_prefix(x@, y@, k) && (k < y@.len() && (k == x@.len()
                            || x@[k] < y@[k]));
                    assert(k < n);
                }
            }
        }
        if n < x@.len() {
            assert(n == y@.len());
            assert(!bytes_before(x@, y@)) by {
                if bytes_before(x@, y@) {
                    let k = choose|k: int|
                        #[trigger] common_prefix(x@, y@, k) && (k < y@.len() && (k == x@.len()
                            || x@[k] < y@[k]));
                    assert(k < n);
                }
            }
        } else {
            assert(!bytes_before(y@, x@)) by {
                if bytes_before(y@, x@) {
                    let k = choose|k: int|
                        #[trigger] common_prefix(y@, x@, k) && (k < x@.len() && (k == y@.len()
                            || y@[k] < x@[k]));
                    assert(k < n);
                }
            }
        }
    }
    if i < y.len() {
        Rank::Lower
    } else if i < x.len() {
        Rank::Higher
    } else {
        Rank::Level
    }
}

/// Compares two strings as Rust orders them.
pub fn rank_text(a: &String, b: &String) -> (r: Rank)
    ensures
        r == text_rank(a@, b@),
{
    rank_bytes(a.as_str().as_bytes(), b.as_str().as_bytes())
}

/// Compares two optional strings; an absent one sorts lowest.
pub fn rank_opt_text(a: &Option<String>, b: &Option<String>) -> (r: Rank)
    ensures
        r == opt_text_rank(opt_text(*a), opt_text(*b)),
{
    match (a, b) {
        (None, None) => Rank::Level,
        (None, Some(_)) => Rank::Lower,
        (Some(_), None) => Rank::Higher,
        (Some(x), Some(y)) => rank_text(x, y),
    }
}

/// Compares two optional integers; an absent one sorts lowest.
pub fn rank_opt_int(a: Option<i32>, b: Option<i32>) -> (r: Rank)
    ensures
        r == opt_int_rank(opt_int(a), opt_int(b)),
{
    match (a, b) {
        (None, None) => Rank::Level,
        (None, Some(_)) => Rank::Lower,
        (Some(_), None) => Rank::Higher,
        (Some(x), Some(y)) => if x < y {
            Rank::Lower
        } else if x > y {
            Rank::Higher
        } else {
            Rank::Level
        },
    }
}

/// The least index at or after `from` at which `x` and `y` differ or one of
/// them ends.
pub open spec fn first_difference(x: Seq<u8>, y: Seq<u8>, from: int) -> int
    decreases x.len() - from,
{
    if from < 0 || from >= x.len() || from >= y.len() || x[from] != y[from] {
        from
    } else {
        first_difference(x, y, from + 1)
    }
}

/// Up to their first difference two byte sequences agree.
pub proof fn lemma_first_difference(x: Seq<u8>, y: Seq<u8>, from: int)
    requires
        common_prefix(x, y, from),
    ensures
        common_prefix(x, y, first_difference(x, y, from)),
        first_difference(x, y, from) < x.len() && first_difference(x, y, from) < y.len() ==> x[first_difference(
            x,
            y,
            from,
        )] != y[first_difference(x, y, from)],
    decreases x.len() - from,
{
    if !(from >= x.len() || from >= y.len() || x[from] != y[from]) {
        lemma_first_difference(x, y, from + 1);
    }
}

/// Of two byte sequences at most one comes before the other.
pub proof fn lemma_bytes_before_asymmetric(x: Seq<u8>, y: Seq<u8>)
    ensures
        !(bytes_before(x, y) && bytes_before(y, x)),
{
    if bytes_before(x, y) && bytes_before(y, x) {
        let k1 = choose|k: int|
            #[trigger] common_prefix(x, y, k) && (k < y.len() && (k == x.len() || x[k] < y[k]));
        let k2 = choose|k: int|
            #[trigger] common_prefix(y, x, k) && (k < x.len() && (k == y.len() || y[k] < x[k]));
        if k1 < k2 {
            assert(y[k1] == x[k1]);
        } else if k2 < k1 {
            assert(x[k2] == y[k2]);
        }
    }
}

/// Two byte sequences of which neither comes before the other are equal.
pub proof fn lemma_bytes_level_equal(x: Seq<u8>, y: Seq<u8>)
    requires
        !bytes_before(x, y),
        !bytes_before(y, x),
    ensures
        x == y,
{
    assert(common_prefix(x, y, 0));
    lemma_first_difference(x, y, 0);
    let k = first_difference(x, y, 0);
    assert(common_prefix(y, x, k));
    assert(x =~= y);
}

/// Coming before is transitive.
pub proof fn lemma_bytes_before_transitive(x: Seq<u8>, y: Seq<u8>, z: Seq<u8>)
    requires
        bytes_before(x, y),
        bytes_before(y, z),
    ensures
        bytes_before(x, z),
{
    let k1 = choose|k: int|
        #[trigger] common_prefix(x, y, k) && (k < y.len() && (k == x.len() || x[k] < y[k]));
    let k2 = choose|k: int|
        #[trigger] common_prefix(y, z, k) && (k < z.len() && (k == y.len() || y[k] < z[k]));
    let k = if k1 <= k2 {
        k1
    } else {
        k2
    };
    assert(common_prefix(x, z, k)) by {
        assert forall|j: int| 0 <= j < k implies x[j] == z[j] by {
            assert(x[j] == y[j]);
            assert(y[j] == z[j]);
        }
    }
    if k1 < k2 {
        assert(y[k1] == z[k1]);
    } else if k2 < k1 {
        assert(x[k2] == y[k2]);
    }
}

/// The comparison of byte sequences is a total order: turning the arguments
/// round turns the outcome round, sequences on one level are equal, and
/// ranking higher is transitive.
pub proof fn lemma_bytes_rank_order(x: Seq<u8>, y: Seq<u8>, z: Seq<u8>)
    ensures
        bytes_rank(x, y) == Rank::Higher <==> bytes_rank(y, x) == Rank::Lower,
        bytes_rank(x, y) == Rank::Level <==> bytes_rank(y, x) == Rank::Level,
        bytes_rank(x, y) == Rank::Level <==> x == y,
        bytes_rank(x, y) == Rank::Higher && bytes_rank(y, z) == Rank::Higher ==> bytes_rank(x, z)
            == Rank::Higher,
{
    lemma_bytes_before_asymmetric(x, y);
    lemma_bytes_before_asymmetric(x, z);
    lemma_bytes_before_asymmetric(y, z);
    lemma_bytes_before_asymmetric(x, x);
    if !bytes_before(x, y) && !bytes_before(y, x) {
        lemma_bytes_level_equal(x, y);
    }
    if bytes_before(z, y) && bytes_before(y, x) {
        lemma_bytes_before_transitive(z, y, x);
    }
}

/// The comparison of optional texts is a total preorder: turning the
/// arguments round turns the outcome round, ranking higher is transitive,
/// and texts on one level compare alike with any third.
pub proof fn lemma_opt_text_rank_order(
    a: Option<Seq<char>>,
    b: Option<Seq<char>>,
    c: Option<Seq<char>>,
)
    ensures
        opt_text_rank(a, b) == Rank::Higher <==> opt_text_rank(b, a) == Rank::Lower,
        opt_text_rank(a, b) == Rank::Level <==> opt_text_rank(b, a) == Rank::Level,
        opt_text_rank(a, b) == Rank::Higher && opt_text_rank(b, c) == Rank::Higher
            ==> opt_text_rank(a, c) == Rank::Higher,
        opt_text_rank(a, b) == Rank::Level ==> opt_text_rank(a, c) == opt_text_rank(b, c),
        opt_text_rank(b, c) == Rank::Level ==> opt_text_rank(a, b) == opt_text_rank(a, c),
{
    match (a, b, c) {
        (Some(x), Some(y), Some(z)) => {
            lemma_bytes_rank_order(encode_utf8(x), encode_utf8(y), encode_utf8(z));
            lemma_bytes_rank_order(encode_utf8(y), encode_utf8(z), encode_utf8(x));
        },
        (Some(x), Some(y), None) => {
            lemma_bytes_rank_order(encode_utf8(x), encode_utf8(y), encode_utf8(y));
        },
        (None, Some(y), Some(z)) => {
            lemma_bytes_rank_order(encode_utf8(y), encode_utf8(z), encode_utf8(z));
        },
        _ => {},
    }
}

/// The comparison of texts is a total preorder, as that of optional texts.
pub proof fn lemma_text_rank_order(a: Seq<char>, b: Seq<char>, c: Seq<char>)
    ensures
        text_rank(a, b) == Rank::Higher <==> text_rank(b, a) == Rank::Lower,
        text_rank(a, b) == Rank::Level <==> text_rank(b, a) == Rank::Level,
        text_rank(a, b) == Rank::Higher && text_rank(b, c) == Rank::Higher ==> text_rank(a, c)
            == Rank::Higher,
        text_rank(a, b) == Rank::Level ==> text_rank(a, c) == text_rank(b, c),
        text_rank(b, c) == Rank::Level ==> text_rank(a, b) == text_rank(a, c),
{
    lemma_opt_text_rank_order(Some(a), Some(b), Some(c));
}

/// The character that writes the digit `d`.
pub open spec fn digit_char(d: nat) -> char {
    if d == 0 {
        '0'
    } else if d == 1 {
        '1'
    } else if d == 2 {
        '2'
    } else if d == 3 {
        '3'
    } else if d == 4 {
        '4'
    } else if d == 5 {
        '5'
    } else if d == 6 {
        '6'
    } else if d == 7 {
        '7'
    } else if d == 8 {
        '8'
    } else {
        '9'
    }
}

/// The decimal notation of `n`, without leading zeros.
pub open spec fn decimal(n: nat) -> Seq<char>
    decreases n,
{
    if n < 10 {
        seq![digit_char(n)]
    } else {
        decimal(n / 10).push(digit_char(n % 10))
    }
}

/// The one-character text of a digit.
fn digit_text(d: u64) -> (r: &'static str)
    requires
        d < 10,
    ensures
        r@ == seq![digit_char(d as nat)],
{
    proof {
        reveal_strlit("0");
        reveal_strlit("1");
        reveal_strlit("2");
        reveal_strlit("3");
        reveal_strlit("4");
        reveal_strlit("5");
        reveal_strlit("6");
        reveal_strlit("7");
        reveal_strlit("8");
        reveal_strlit("9");
    }
    let r = if d == 0 {
        "0"
    } else if d == 1 {
        "1"
    } else if d == 2 {
        "2"
    } else if d == 3 {
        "3"
    } else if d == 4 {
        "4"
    } else if d == 5 {
        "5"
    } else if d == 6 {
        "6"
    } else if d == 7 {
        "7"
    } else if d == 8 {
        "8"
    } else {
        "9"
    };
    assert(r@ =~= seq![digit_char(d as nat)]);
    r
}

/// Writes `n` in decimal.
pub fn decimal_text(n: u64) -> (r: String)
    ensures
        r@ == decimal(n as nat),
    decreases n,
{
    if n < 10 {
        String::from_str(digit_text(n))
    } else {
        let mut head = decimal_text(n / 10);
        head.append(digit_text(n % 10));
        assert(head@ =~= decimal(n as nat));
        head
    }
}

} // verus!
