//! The projector: a pure mapping from stored records to display rows.
//!
//! One display row is produced per record, in the same order. The row's
//! human-readable key embeds the record's numeric id, and the id itself is
//! what the browser uses to look the row's content up, so two rows never
//! collide.

use vstd::prelude::*;
use vstd::string::StringExecFns;
use crate::store::Request;

verus! {

/// One record, projected for rendering: the numeric id the browser keys its
/// lookups by, a human-readable label, and the payload and response bodies as
/// JSON text (`None` where the record stored none).
#[derive(Debug, PartialEq, Eq)]
pub struct DisplayRow {
    pub id: i64,
    pub key: String,
    pub payload: Option<String>,
    pub response: Option<String>,
}

/// The character for one decimal digit.
pub open spec fn digit_char(d: int) -> char {
    if d == 0 {
        '0'
    } else if d == 1 {
        '1'
    } else if d == 2 {
        '2'
    } else if d == 3 {
        '3'
    } else if d == 4 {
        '4'
    } else if d == 5 {
        '5'
    } else if d == 6 {
        '6'
    } else if d == 7 {
        '7'
    } else if d == 8 {
        '8'
    } else {
        '9'
    }
}

/// The decimal rendering of a non-negative number, most significant digit
/// first, without leading zeroes (except for zero itself).
pub open spec fn dec_digits(n: int) -> Seq<char>
    recommends
        n >= 0,
    decreases n,
{
    if n < 10 {
        seq![digit_char(n)]
    } else {
        dec_digits(n / 10).push(digit_char(n % 10))
    }
}

/// The digits of `ds` read back to front, as characters: `ds` collects a
/// number's digits least significant first.
spec fn digits_tail(ds: Seq<u8>) -> Seq<char> {
    Seq::new(ds.len(), |k: int| digit_char(ds[ds.len() - 1 - k] as int))
}

fn digit_str(d: u8) -> (s: &'static str)
    requires
        d < 10,
    ensures
        s@ == seq![digit_char(d as int)],
{
    match d {
        0 => {
            proof {
                reveal_strlit("0");
                assert("0"@ =~= seq![digit_char(0)]);
            }
            "0"
        },
        1 => {
            proof {
                reveal_strlit("1");
                assert("1"@ =~= seq![digit_char(1)]);
            }
            "1"
        },
        2 => {
            proof {
                reveal_strlit("2");
                assert("2"@ =~= seq![digit_char(2)]);
            }
            "2"
        },
        3 => {
            proof {
                reveal_strlit("3");
                assert("3"@ =~= seq![digit_char(3)]);
            }
            "3"
        },
        4 => {
            proof {
                reveal_strlit("4");
                assert("4"@ =~= seq![digit_char(4)]);
            }
            "4"
        },
        5 => {
            proof {
                reveal_strlit("5");
                assert("5"@ =~= seq![digit_char(5)]);
            }
            "5"
        },
        6 => {
            proof {
                reveal_strlit("6");
                assert("6"@ =~= seq![digit_char(6)]);
            }
            "6"
        },
        7 => {
            proof {
                reveal_strlit("7");
                assert("7"@ =~= seq![digit_char(7)]);
            }
            "7"
        },
        8 => {
            proof {
                reveal_strlit("8");
                assert("8"@ =~= seq![digit_char(8)]);
            }
            "8"
        },
        _ => {
            proof {
                reveal_strlit("9");
                assert("9"@ =~= seq![digit_char(9)]);
            }
            "9"
        },
    }
}

/// Render a number in decimal.
pub fn decimal_string(n: u64) -> (s: String)
    ensures
        s@ == dec_digits(n as int),
{
    let mut digits: Vec<u8> = Vec::new();
    let mut m: u64 = n;
    while m >= 10
        invariant
            forall|k: int| 0 <= k < digits@.len() ==> (#[trigger] digits@[k]) < 10,
            digits@.len() == 0 ==> m == n,
            digits@.len() > 0 ==> dec_digits(n as int) == dec_digits(m as int) + digits_tail(
                digits@,
            ),
        decreases m,
    {
        let ghost dprev = digits@;
        let ghost mprev = m;
        let d = (m % 10) as u8;
        digits.push(d);
        m = m / 10;
        proof {
            assert(digits_tail(digits@) =~= seq![digit_char(d as int)] + digits_tail(dprev));
            assert(dec_digits(mprev as int) == dec_digits(m as int).push(digit_char(d as int)));
            assert(dec_digits(n as int) =~= dec_digits(m as int) + digits_tail(digits@));
        }
    }
    let ghost dprev = digits@;
    let last = m as u8;
    digits.push(last);
    proof {
        assert(digits_tail(digits@) =~= seq![digit_char(last as int)] + digits_tail(dprev));
        assert(dec_digits(m as int) == seq![digit_char(last as int)]);
        assert(dec_digits(n as int) =~= digits_tail(digits@));
    }
    let ghost ds = digits@;
    let mut s = String::new();
    let mut j: usize = digits.len();
    while j > 0
        invariant
            j <= digits@.len(),
            digits@ == ds,
            forall|k: int| 0 <= k < digits@.len() ==> (#[trigger] digits@[k]) < 10,
            dec_digits(n as int) == digits_tail(ds),
            s@ == digits_tail(ds).take(ds.len() - j),
        decreases j,
    {
        let piece = digit_str(digits[j - 1]);
        s.append(piece);
        proof {
            assert(s@ =~= digits_tail(ds).take(ds.len() - (j - 1)));
        }
        j = j - 1;
    }
    proof {
        assert(digits_tail(ds).take(ds.len() as int) =~= digits_tail(ds));
    }
    s
}

/// The human-readable label of one record: its id in brackets, then method,
/// service and resolved url.
pub open spec fn spec_label(r: Request) -> Seq<char> {
    seq!['['] + dec_digits(r.id as int) + seq![']', ' '] + r.method@ + seq![' '] + r.service@
        + seq![' '] + r.url@
}

/// Build one record's display label.
pub fn build_label(r: &Request) -> (s: String)
    requires
        r.id >= 0,
    ensures
        s@ == spec_label(*r),
{
    let mut s = String::new();
    s.append("[");
    let ids = decimal_string(r.id as u64);
    s.append(ids.as_str());
    s.append("] ");
    s.append(r.method.as_str());
    s.append(" ");
    s.append(r.service.as_str());
    s.append(" ");
    s.append(r.url.as_str());
    proof {
        reveal_strlit("[");
        reveal_strlit("] ");
        reveal_strlit(" ");
        assert("["@ =~= seq!['[']);
        assert("] "@ =~= seq![']', ' ']);
        assert(" "@ =~= seq![' ']);
        assert(s@ =~= spec_label(*r));
    }
    s
}

/// Project records into display rows: one row per record, in the same order,
/// carrying the record's id, its label, and its payload and response text.
pub fn to_display(records: &Vec<Request>) -> (rows: Vec<DisplayRow>)
    requires
        forall|k: int| 0 <= k < records@.len() ==> (#[trigger] records@[k]).id >= 0,
    ensures
        rows@.len() == records@.len(),
        forall|k: int|
            0 <= k < rows@.len() ==> {
                let row = #[trigger] rows@[k];
                let rec = records@[k];
                &&& row.id == rec.id
                &&& row.key@ == spec_label(rec)
                &&& row.payload == rec.payload_json
                &&& row.response == rec.response_json
            },
{
    let mut rows: Vec<DisplayRow> = Vec::new();
    let mut i: usize = 0;
    while i < records.len()
        invariant
            i <= records@.len(),
            rows@.len() == i,
            forall|k: int| 0 <= k < records@.len() ==> (#[trigger] records@[k]).id >= 0,
            forall|k: int|
                0 <= k < i ==> {
                    let row = #[trigger] rows@[k];
                    let rec = records@[k];
                    &&& row.id == rec.id
                    &&& row.key@ == spec_label(rec)
                    &&& row.payload == rec.payload_json
                    &&& row.response == rec.response_json
                },
        decreases records@.len() - i,
    {
        let rec = &records[i];
        let key = build_label(rec);
        let payload = match &rec.payload_json {
            Some(text) => Some(text.clone()),
            None => None,
        };
        let response = match &rec.response_json {
            Some(text) => Some(text.clone()),
            None => None,
        };
        rows.push(DisplayRow { id: rec.id, key, payload, response });
        i = i + 1;
    }
    rows
}

/// Law: the projection keeps ids distinct: rows projected from records with
/// pairwise distinct ids (as the store holds them) collide on no lookup key.
pub proof fn lemma_projection_keeps_ids_distinct(records: Seq<Request>, rows: Seq<DisplayRow>)
    requires
        rows.len() == records.len(),
        forall|k: int| 0 <= k < rows.len() ==> (#[trigger] rows[k]).id == records[k].id,
        crate::store::unique_ids(records),
    ensures
        crate::browser::distinct_row_ids(rows),
{
    assert forall|i: int, j: int|
        0 <= i < rows.len() && 0 <= j < rows.len() && i != j implies (#[trigger] rows[i]).id != (
    #[trigger] rows[j]).id by {
        assert(records[i].id != records[j].id);
    }
}

/// The ten digit characters.
pub open spec fn is_digit_char(c: char) -> bool {
    ||| c == '0'
    ||| c == '1'
    ||| c == '2'
    ||| c == '3'
    ||| c == '4'
    ||| c == '5'
    ||| c == '6'
    ||| c == '7'
    ||| c == '8'
    ||| c == '9'
}

proof fn lemma_dec_digits_shape(n: int)
    requires
        n >= 0,
    ensures
        dec_digits(n).len() >= 1,
        n < 10 <==> dec_digits(n).len() == 1,
        forall|k: int|
            0 <= k < dec_digits(n).len() ==> is_digit_char(#[trigger] dec_digits(n)[k]),
    decreases n,
{
    if n >= 10 {
        lemma_dec_digits_shape(n / 10);
    }
}

proof fn lemma_dec_digits_injective(a: int, b: int)
    requires
        a >= 0,
        b >= 0,
        dec_digits(a) == dec_digits(b),
    ensures
        a == b,
    decreases a,
{
    lemma_dec_digits_shape(a);
    lemma_dec_digits_shape(b);
    assert(dec_digits(a).len() == dec_digits(b).len());
    if a < 10 && b < 10 {
        assert(dec_digits(a) =~= seq![digit_char(a)]);
        assert(dec_digits(b) =~= seq![digit_char(b)]);
        assert(seq![digit_char(a)][0] == digit_char(a));
        assert(seq![digit_char(b)][0] == digit_char(b));
        assert(dec_digits(a)[0] == dec_digits(b)[0]);
        assert(digit_char(a) == digit_char(b));
        assert(a == b);
    } else {
        assert(a >= 10 && b >= 10);
        let la = dec_digits(a).len() as int;
        assert(dec_digits(a)[la - 1] == digit_char(a % 10));
        assert(dec_digits(b)[la - 1] == digit_char(b % 10));
        assert(digit_char(a % 10) == digit_char(b % 10));
        assert(a % 10 == b % 10);
        assert(dec_digits(a).drop_last() =~= dec_digits(a / 10));
        assert(dec_digits(b).drop_last() =~= dec_digits(b / 10));
        lemma_dec_digits_injective(a / 10, b / 10);
        assert(a == 10 * (a / 10) + a % 10);
        assert(b == 10 * (b / 10) + b % 10);
    }
}

/// Law: the display label is collision-free: two records that render to the
/// same label carry the same id, since the label opens with the id's digits
/// up to the first `]`, digits that determine the id.
pub proof fn lemma_labels_unique(r1: Request, r2: Request)
    requires
        r1.id >= 0,
        r2.id >= 0,
        spec_label(r1) == spec_label(r2),
    ensures
        r1.id == r2.id,
{
    let d1 = dec_digits(r1.id as int);
    let d2 = dec_digits(r2.id as int);
    let l1 = spec_label(r1);
    let l2 = spec_label(r2);
    lemma_dec_digits_shape(r1.id as int);
    lemma_dec_digits_shape(r2.id as int);
    if d1.len() == d2.len() {
        assert(d1 =~= d2) by {
            assert forall|k: int| 0 <= k < d1.len() implies d1[k] == d2[k] by {
                assert(l1[1 + k] == d1[k]);
                assert(l2[1 + k] == d2[k]);
            }
        }
        lemma_dec_digits_injective(r1.id as int, r2.id as int);
    } else if d1.len() < d2.len() {
        assert(l1[1 + d1.len() as int] == ']');
        assert(l2[1 + d1.len() as int] == d2[d1.len() as int]);
        assert(is_digit_char(d2[d1.len() as int]));
    } else {
        assert(l2[1 + d2.len() as int] == ']');
        assert(l1[1 + d2.len() as int] == d1[d2.len() as int]);
        assert(is_digit_char(d1[d2.len() as int]));
    }
}

} // verus!
