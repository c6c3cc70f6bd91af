use vstd::prelude::*;

use crate::models::Fruit;

verus! {

/// The double-quote byte, which ends a field value inside the document.
pub const QUOTE: u8 = 34;

/// The closing-brace byte, the last byte of the document.
pub const CLOSE_BRACE: u8 = 125;

/// A byte string that may stand as a field value: it contains no double quote,
/// so the quote after it is the first one the scanner meets.
pub open spec fn quote_free(s: Seq<u8>) -> bool {
    forall|i: int| 0 <= i < s.len() ==> s[i] != QUOTE
}

/// The bytes `{"name":"` that open the document.
pub open spec fn doc_open() -> Seq<u8> {
    seq![123u8, 34u8, 110u8, 97u8, 109u8, 101u8, 34u8, 58u8, 34u8]
}

/// The bytes `","color":"` that stand between the two field values.
pub open spec fn doc_sep() -> Seq<u8> {
    seq![34u8, 44u8, 34u8, 99u8, 111u8, 108u8, 111u8, 114u8, 34u8, 58u8, 34u8]
}

/// The bytes `"}` that close the document.
pub open spec fn doc_close() -> Seq<u8> {
    seq![34u8, 125u8]
}

/// The fruit document that carries the field values `name` and `color`:
/// `{"name":"<name>","color":"<color>"}`, with no whitespace and the fields
/// in this order. This is the wire form the API serves.
pub open spec fn fruit_doc(name: Seq<u8>, color: Seq<u8>) -> Seq<u8> {
    doc_open() + name + doc_sep() + color + doc_close()
}

/// Where each region of a fruit document stands, given quote-free fields:
/// the opening bytes, the name, the separator, the color, the closing bytes.
pub proof fn lemma_fruit_doc_shape(name: Seq<u8>, color: Seq<u8>)
    requires
        quote_free(name),
        quote_free(color),
    ensures
        ({
            let s = fruit_doc(name, color);
            &&& s.len() == 22 + name.len() + color.len()
            &&& forall|k: int| 0 <= k < 9 ==> s[k] == doc_open()[k]
            &&& forall|j: int| 9 <= j < 9 + name.len() ==> s[j] == name[j - 9] && s[j] != QUOTE
            &&& forall|k: int| 0 <= k < 11 ==> s[9 + name.len() as int + k] == doc_sep()[k]
            &&& s[9 + name.len() as int] == QUOTE
            &&& forall|j: int|
                20 + name.len() <= j < 20 + name.len() + color.len() ==> s[j] == color[j - 20
                    - name.len()] && s[j] != QUOTE
            &&& s[20 + name.len() as int + color.len() as int] == QUOTE
            &&& s[21 + name.len() as int + color.len() as int] == CLOSE_BRACE
        }),
{
    let s = fruit_doc(name, color);
    assert(s.len() == 22 + name.len() + color.len());
    assert forall|k: int| 0 <= k < 9 implies s[k] == doc_open()[k] by {
        assert(s[k] == doc_open()[k]);
    }
    assert forall|j: int| 9 <= j < 9 + name.len() implies s[j] == name[j - 9] && s[j]
        != QUOTE by {
        assert(s[j] == name[j - 9]);
    }
    assert forall|k: int| 0 <= k < 11 implies s[9 + name.len() as int + k] == doc_sep()[k] by {
        assert(s[9 + name.len() as int + k] == doc_sep()[k]);
    }
    assert forall|j: int|
        20 + name.len() <= j < 20 + name.len() + color.len() implies s[j] == color[j - 20
        - name.len()] && s[j] != QUOTE by {
        assert(s[j] == color[j - 20 - name.len()]);
    }
    assert(s[20 + name.len() as int + color.len() as int] == QUOTE);
    assert(s[21 + name.len() as int + color.len() as int] == CLOSE_BRACE);
}

/// Field values determine the document: two fruit documents over quote-free
/// fields agree only when the fields agree. So a document decodes to at most
/// one fruit, and never to a garbled one.
pub proof fn lemma_fruit_doc_injective(n1: Seq<u8>, c1: Seq<u8>, n2: Seq<u8>, c2: Seq<u8>)
    requires
        quote_free(n1),
        quote_free(c1),
        quote_free(n2),
        quote_free(c2),
        fruit_doc(n1, c1) == fruit_doc(n2, c2),
    ensures
        n1 == n2,
        c1 == c2,
{
    let s = fruit_doc(n1, c1);
    lemma_fruit_doc_shape(n1, c1);
    lemma_fruit_doc_shape(n2, c2);
    // The first quote at or after the opening bytes ends the name in both
    // readings, so the names have the same length.
    assert(n1.len() == n2.len()) by {
        if n1.len() < n2.len() {
            assert(s[9 + n1.len() as int] == QUOTE);
            assert(s[9 + n1.len() as int] != QUOTE);
        }
        if n2.len() < n1.len() {
            assert(s[9 + n2.len() as int] == QUOTE);
            assert(s[9 + n2.len() as int] != QUOTE);
        }
    }
    assert(c1.len() == c2.len());
    assert(n1 =~= n2) by {
        assert forall|i: int| 0 <= i < n1.len() implies n1[i] == n2[i] by {
            assert(s[9 + i] == n1[i]);
            assert(s[9 + i] == n2[i]);
        }
    }
    assert(c1 =~= c2) by {
        assert forall|i: int| 0 <= i < c1.len() implies c1[i] == c2[i] by {
            assert(s[20 + n1.len() as int + i] == c1[i]);
            assert(s[20 + n2.len() as int + i] == c2[i]);
        }
    }
}

/// The least index in `[from, body.len())` holding a quote, if any.
fn find_quote(body: &Vec<u8>, from: usize) -> (r: Option<usize>)
    requires
        from <= body@.len(),
    ensures
        r matches Some(i) ==> from <= i < body@.len() && body@[i as int] == QUOTE && (forall|
            j: int,
        | from <= j < i ==> body@[j] != QUOTE),
        r is None ==> forall|j: int| from <= j < body@.len() ==> body@[j] != QUOTE,
{
    let mut i = from;
    while i < body.len()
        invariant
            from <= i <= body@.len(),
            forall|j: int| from <= j < i ==> body@[j] != QUOTE,
        decreases body@.len() - i,
    {
        if body[i] == QUOTE {
            return Some(i);
        }
        i = i + 1;
    }
    None
}

/// A copy of the bytes of `body` in `[lo, hi)`.
fn copy_range(body: &Vec<u8>, lo: usize, hi: usize) -> (r: Vec<u8>)
    requires
        lo <= hi <= body@.len(),
    ensures
        r@ == body@.subrange(lo as int, hi as int),
{
    let mut out: Vec<u8> = Vec::new();
    let mut i = lo;
    while i < hi
        invariant
            lo <= i <= hi <= body@.len(),
            out@ =~= body@.subrange(lo as int, i as int),
        decreases hi - i,
    {
        out.push(body[i]);
        i = i + 1;
    }
    proof {
        assert(out@ =~= body@.subrange(lo as int, hi as int));
    }
    out
}

/// Whether the document's opening bytes stand at the start of `body`.
fn has_open(body: &Vec<u8>) -> (r: bool)
    requires
        body@.len() >= 9,
    ensures
        r <==> forall|k: int| 0 <= k < 9 ==> body@[k] == doc_open()[k],
{
    let r = body[0] == 123 && body[1] == 34 && body[2] == 110 && body[3] == 97 && body[4] == 109
        && body[5] == 101 && body[6] == 34 && body[7] == 58 && body[8] == 34;
    proof {
        if r {
            assert forall|k: int| 0 <= k < 9 implies body@[k] == doc_open()[k] by {
                assert(doc_open()[k] == body@[k]);
            }
        } else {
            if forall|k: int| 0 <= k < 9 ==> body@[k] == doc_open()[k] {
                assert(body@[0] == doc_open()[0]);
                assert(body@[1] == doc_open()[1]);
                assert(body@[2] == doc_open()[2]);
                assert(body@[3] == doc_open()[3]);
                assert(body@[4] == doc_open()[4]);
                assert(body@[5] == doc_open()[5]);
                assert(body@[6] == doc_open()[6]);
                assert(body@[7] == doc_open()[7]);
                assert(body@[8] == doc_open()[8]);
            }
        }
    }
    r
}

/// Whether the separator bytes stand in `body` at index `at`.
fn has_sep_at(body: &Vec<u8>, at: usize) -> (r: bool)
    requires
        at + 11 <= body@.len(),
    ensures
        r <==> forall|k: int| 0 <= k < 11 ==> body@[at + k] == doc_sep()[k],
{
    // Binding the length tells the verifier that it fits in `usize`, so the
    // index sums below cannot overflow.
    let _len = body.len();
    let r = body[at] == 34 && body[at + 1] == 44 && body[at + 2] == 34 && body[at + 3] == 99
        && body[at + 4] == 111 && body[at + 5] == 108 && body[at + 6] == 111 && body[at + 7] == 114
        && body[at + 8] == 34 && body[at + 9] == 58 && body[at + 10] == 34;
    proof {
        if r {
            assert forall|k: int| 0 <= k < 11 implies body@[at + k] == doc_sep()[k] by {
                assert(doc_sep()[k] == body@[at + k]);
            }
        } else {
            if forall|k: int| 0 <= k < 11 ==> body@[at + k] == doc_sep()[k] {
                assert(body@[at + 0] == doc_sep()[0]);
                assert(body@[at + 1] == doc_sep()[1]);
                assert(body@[at + 2] == doc_sep()[2]);
                assert(body@[at + 3] == doc_sep()[3]);
                assert(body@[at + 4] == doc_sep()[4]);
                assert(body@[at + 5] == doc_sep()[5]);
                assert(body@[at + 6] == doc_sep()[6]);
                assert(body@[at + 7] == doc_sep()[7]);
                assert(body@[at + 8] == doc_sep()[8]);
                assert(body@[at + 9] == doc_sep()[9]);
                assert(body@[at + 10] == doc_sep()[10]);
            }
        }
    }
    r
}

/// Reads a fruit out of a response body.
///
/// Returns the fruit whose document `body` is, when `body` is one, and
/// `None` when `body` is no fruit document at all: success and the returned
/// value are both pinned down exactly.
pub fn decode_fruit(body: &Vec<u8>) -> (r: Option<Fruit>)
    ensures
        r matches Some(f) ==> quote_free(f.name@) && quote_free(f.color@) && body@ == fruit_doc(
            f.name@,
            f.color@,
        ),
        r is None ==> forall|n: Seq<u8>, c: Seq<u8>|
            quote_free(n) && quote_free(c) ==> body@ != fruit_doc(n, c),
        forall|n: Seq<u8>, c: Seq<u8>|
            quote_free(n) && quote_free(c) && body@ == fruit_doc(n, c) ==> (r matches Some(f)
                && f.name@ == n && f.color@ == c),
{
    if body.len() < 22 {
        proof {
            assert forall|n: Seq<u8>, c: Seq<u8>|
                quote_free(n) && quote_free(c) implies body@ != fruit_doc(n, c) by {
                if body@ == fruit_doc(n, c) {
                    lemma_fruit_doc_shape(n, c);
                }
            }
        }
        return None;
    }
    if !has_open(body) {
        proof {
            assert forall|n: Seq<u8>, c: Seq<u8>|
                quote_free(n) && quote_free(c) implies body@ != fruit_doc(n, c) by {
                if body@ == fruit_doc(n, c) {
                    lemma_fruit_doc_shape(n, c);
                }
            }
        }
        return None;
    }
    let i1 = match find_quote(body, 9) {
        Some(i) => i,
        None => {
            proof {
                assert forall|n: Seq<u8>, c: Seq<u8>|
                    quote_free(n) && quote_free(c) implies body@ != fruit_doc(n, c) by {
                    if body@ == fruit_doc(n, c) {
                        lemma_fruit_doc_shape(n, c);
                        assert(body@[9 + n.len() as int] == QUOTE);
                    }
                }
            }
            return None;
        },
    };
    proof {
        assert forall|n: Seq<u8>, c: Seq<u8>|
            quote_free(n) && quote_free(c) && body@ == fruit_doc(n, c) implies i1 == 9
            + n.len() by {
            lemma_fruit_doc_shape(n, c);
            if i1 < 9 + n.len() {
                assert(body@[i1 as int] != QUOTE);
            }
            if i1 > 9 + n.len() {
                assert(body@[9 + n.len() as int] == QUOTE);
            }
        }
    }
    if body.len() - i1 < 13 {
        proof {
            assert forall|n: Seq<u8>, c: Seq<u8>|
                quote_free(n) && quote_free(c) implies body@ != fruit_doc(n, c) by {
                if body@ == fruit_doc(n, c) {
                    lemma_fruit_doc_shape(n, c);
                }
            }
        }
        return None;
    }
    if !has_sep_at(body, i1) {
        proof {
            assert forall|n: Seq<u8>, c: Seq<u8>|
                quote_free(n) && quote_free(c) implies body@ != fruit_doc(n, c) by {
                if body@ == fruit_doc(n, c) {
                    lemma_fruit_doc_shape(n, c);
                    assert forall|k: int| 0 <= k < 11 implies body@[i1 + k] == doc_sep()[k] by {
                        assert(body@[9 + n.len() as int + k] == doc_sep()[k]);
                    }
                }
            }
        }
        return None;
    }
    let j1 = match find_quote(body, i1 + 11) {
        Some(j) => j,
        None => {
            proof {
                assert forall|n: Seq<u8>, c: Seq<u8>|
                    quote_free(n) && quote_free(c) implies body@ != fruit_doc(n, c) by {
                    if body@ == fruit_doc(n, c) {
                        lemma_fruit_doc_shape(n, c);
                        assert(body@[20 + n.len() as int + c.len() as int] == QUOTE);
                    }
                }
            }
            return None;
        },
    };
    proof {
        assert forall|n: Seq<u8>, c: Seq<u8>|
            quote_free(n) && quote_free(c) && body@ == fruit_doc(n, c) implies j1 == 20 + n.len()
            + c.len() by {
            lemma_fruit_doc_shape(n, c);
            if j1 < 20 + n.len() + c.len() {
                assert(body@[j1 as int] != QUOTE);
            }
            if j1 > 20 + n.len() + c.len() {
                assert(body@[20 + n.len() as int + c.len() as int] == QUOTE);
            }
        }
    }
    if body.len() - j1 != 2 || body[j1 + 1] != CLOSE_BRACE {
        proof {
            assert forall|n: Seq<u8>, c: Seq<u8>|
                quote_free(n) && quote_free(c) implies body@ != fruit_doc(n, c) by {
                if body@ == fruit_doc(n, c) {
                    lemma_fruit_doc_shape(n, c);
                    assert(body@[21 + n.len() as int + c.len() as int] == CLOSE_BRACE);
                }
            }
        }
        return None;
    }
    let name = copy_range(body, 9, i1);
    let color = copy_range(body, i1 + 11, j1);
    proof {
        assert(quote_free(name@));
        assert(quote_free(color@));
        let n = name@;
        let c = color@;
        assert(n.len() == i1 - 9);
        assert(c.len() == j1 - i1 - 11);
        lemma_fruit_doc_shape(n, c);
        assert(body@.len() == fruit_doc(n, c).len());
        assert forall|k: int| 0 <= k < body@.len() implies body@[k] == fruit_doc(n, c)[k] by {
            if k < 9 {
                assert(fruit_doc(n, c)[k] == doc_open()[k]);
            } else if k < i1 {
                assert(fruit_doc(n, c)[k] == n[k - 9]);
                assert(n[k - 9] == body@[k]);
            } else if k < i1 + 11 {
                assert(fruit_doc(n, c)[k] == doc_sep()[k - i1]);
                assert(body@[i1 + (k - i1)] == doc_sep()[k - i1]);
            } else if k < j1 {
                assert(fruit_doc(n, c)[k] == c[k - i1 - 11]);
                assert(c[k - i1 - 11] == body@[k]);
            } else if k == j1 {
                assert(fruit_doc(n, c)[k] == QUOTE);
            } else {
                assert(k == j1 + 1);
                assert(fruit_doc(n, c)[k] == CLOSE_BRACE);
            }
        }
        assert(body@ =~= fruit_doc(n, c));
        assert forall|n2: Seq<u8>, c2: Seq<u8>|
            quote_free(n2) && quote_free(c2) && body@ == fruit_doc(n2, c2) implies n2 == n && c2
            == c by {
            lemma_fruit_doc_injective(n, c, n2, c2);
        }
    }
    Some(Fruit { name, color })
}

} // verus!
