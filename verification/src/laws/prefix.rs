//! Decoding looks no further than the value.

use vstd::prelude::*;
use crate::byte_order::{field, le_u32};
use crate::laws::bounds::{lemma_parse_bounds, lemma_parse_entries_bounds};
use crate::layout::{
    parse, parse_entries, parse_header, rest_after, string_payload, with_pair, Value,
};

verus! {

/// Decoding reads only the bytes that the value occupies: a buffer that
/// starts with the same bytes decodes to the same value.
pub proof fn lemma_parse_reads_prefix(a: Seq<u8>, b: Seq<u8>)
    requires
        parse(a) matches Ok((_, n)) && n <= b.len() && a.take(n as int) == b.take(n as int),
    ensures
        parse(b) == parse(a),
    decreases a.len(), 1nat,
{
    lemma_parse_bounds(a);
    let (v, n) = parse(a)->Ok_0;
    assert forall|i: int| 0 <= i < n implies a[i] == b[i] by {
        assert(a[i] == a.take(n as int)[i]);
        assert(b[i] == b.take(n as int)[i]);
    }
    assert(field(a, 0, 2) =~= field(b, 0, 2));
    assert(field(a, 2, 2) =~= field(b, 2, 2));
    assert(parse_header(a) == parse_header(b));
    if n >= 8 {
        assert(field(a, 4, 4) =~= field(b, 4, 4));
    }
    if n >= 12 {
        assert(field(a, 4, 8) =~= field(b, 4, 8));
        assert(field(a, 8, 4) =~= field(b, 8, 4));
    }
    if n >= 16 {
        assert(field(a, 12, 4) =~= field(b, 12, 4));
    }
    match v {
        Value::Text(text) => {
            let len = le_u32(field(a, 4, 4)) as int;
            assert(string_payload(a) =~= string_payload(b));
        },
        Value::Dictionary(entries) => {
            let count = le_u32(field(a, 4, 4)) as nat;
            let a_entries = a.skip(8).take(n - 8);
            let b_entries = b.skip(8).take(n - 8);
            assert(a_entries =~= b_entries) by {
                assert forall|i: int| 0 <= i < n - 8 implies #[trigger] a_entries[i]
                    == b_entries[i] by {
                    assert(a[i + 8] == b[i + 8]);
                }
            }
            lemma_parse_entries_read_prefix(a.skip(8), b.skip(8), count, Seq::empty());
        },
        _ => {},
    }
}

/// Decoding entries reads only the bytes that they occupy.
pub proof fn lemma_parse_entries_read_prefix(
    a: Seq<u8>,
    b: Seq<u8>,
    count: nat,
    acc: Seq<(Value, Value)>,
)
    requires
        parse_entries(a, count, acc) matches Ok((_, n)) && n <= b.len() && a.take(n as int)
            == b.take(n as int),
    ensures
        parse_entries(b, count, acc) == parse_entries(a, count, acc),
    decreases a.len(), count + 2,
{
    if count > 0 {
        let n = parse_entries(a, count, acc)->Ok_0.1;
        lemma_parse_entries_bounds(a, count, acc);
        assert forall|i: int| 0 <= i < n implies a[i] == b[i] by {
            assert(a[i] == a.take(n as int)[i]);
            assert(b[i] == b.take(n as int)[i]);
        }
        let (key, key_len) = parse(a)->Ok_0;
        lemma_parse_bounds(a);
        let a_value = rest_after(a, key_len);
        let (value, value_len) = parse(a_value)->Ok_0;
        lemma_parse_bounds(a_value);
        let a_later = rest_after(a_value, value_len);
        let kept = with_pair(acc, key, value);
        let later_len = parse_entries(a_later, (count - 1) as nat, kept)->Ok_0.1;
        assert(n == key_len + value_len + later_len);
        assert(a.take(key_len as int) =~= b.take(key_len as int));
        lemma_parse_reads_prefix(a, b);
        let b_value = rest_after(b, key_len);
        let a_front = a_value.take(value_len as int);
        let b_front = b_value.take(value_len as int);
        assert(a_front =~= b_front) by {
            assert forall|i: int| 0 <= i < value_len implies #[trigger] a_front[i]
                == b_front[i] by {
                assert(a[i + key_len] == b[i + key_len]);
            }
        }
        lemma_parse_reads_prefix(a_value, b_value);
        let b_later = rest_after(b_value, value_len);
        let a_back = a_later.take(later_len as int);
        let b_back = b_later.take(later_len as int);
        assert(a_back =~= b_back) by {
            assert forall|i: int| 0 <= i < later_len implies #[trigger] a_back[i]
                == b_back[i] by {
                assert(a[i + key_len + value_len] == b[i + key_len + value_len]);
            }
        }
        lemma_parse_entries_read_prefix(a_later, b_later, (count - 1) as nat, kept);
    }
}

} // verus!
