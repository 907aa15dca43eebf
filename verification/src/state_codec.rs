use vstd::prelude::*;

use crate::errors::ErrorCode;
use crate::values::{value_view, value_view_seq, DataValue, ValueView};

verus! {

// The wire form of a partial aggregate state, owned by this library:
// a payload is either a list `[item,item,...]`, which merges, or a bare
// item, which a producer may emit for an empty partition and which is
// skipped; anything else is corrupt.
//   item := 'n' | 't' | 'f' | 'u' digits | 'i' '-'? digits

/// Whether `c` is a decimal digit.
pub open spec fn is_digit(c: char) -> bool {
    '0' <= c && c <= '9'
}

/// The value of a decimal digit.
pub open spec fn digit_val(c: char) -> int {
    c as int - '0' as int
}

/// Whether every character is a digit.
pub open spec fn all_digits(s: Seq<char>) -> bool {
    forall|i: int| 0 <= i < s.len() ==> is_digit(#[trigger] s[i])
}

/// The number the digits denote, most significant first.
pub open spec fn digits_val(s: Seq<char>) -> int
    decreases s.len(),
{
    if s.len() == 0 {
        0
    } else {
        digits_val(s.drop_last()) * 10 + digit_val(s.last())
    }
}

/// The item a bare payload denotes, if it is well formed.
pub open spec fn item_spec(s: Seq<char>) -> Option<ValueView> {
    if s.len() == 1 && s[0] == 'n' {
        Some(ValueView::Null)
    } else if s.len() == 1 && s[0] == 't' {
        Some(ValueView::Boolean(true))
    } else if s.len() == 1 && s[0] == 'f' {
        Some(ValueView::Boolean(false))
    } else if s.len() >= 2 && s[0] == 'u' && all_digits(s.skip(1)) && digits_val(s.skip(1))
        <= u64::MAX {
        Some(ValueView::UInt64(digits_val(s.skip(1)) as u64))
    } else if s.len() >= 2 && s[0] == 'i' && s[1] != '-' && all_digits(s.skip(1)) && digits_val(
        s.skip(1),
    ) <= i64::MAX {
        Some(ValueView::Int64(digits_val(s.skip(1)) as i64))
    } else if s.len() >= 3 && s[0] == 'i' && s[1] == '-' && all_digits(s.skip(2)) && digits_val(
        s.skip(2),
    ) <= 0x8000_0000_0000_0000 {
        Some(ValueView::Int64((-digits_val(s.skip(2))) as i64))
    } else {
        None
    }
}

/// The first comma of `s`, or `-1`.
pub open spec fn find_comma(s: Seq<char>) -> int
    decreases s.len(),
{
    if s.len() == 0 {
        -1
    } else if s[0] == ',' {
        0
    } else {
        let rest = find_comma(s.drop_first());
        if rest == -1 {
            -1
        } else {
            rest + 1
        }
    }
}

/// The comma-separated pieces of `s`.
pub open spec fn split_commas(s: Seq<char>) -> Seq<Seq<char>>
    decreases s.len(),
    via split_commas_decreases
{
    let i = find_comma(s);
    if i == -1 {
        seq![s]
    } else {
        seq![s.take(i)] + split_commas(s.skip(i + 1))
    }
}

#[via_fn]
proof fn split_commas_decreases(s: Seq<char>) {
    lemma_find_comma_bounds(s);
}

/// `find_comma` is `-1` or a valid position holding a comma, with none
/// before it.
pub proof fn lemma_find_comma_bounds(s: Seq<char>)
    ensures
        find_comma(s) == -1 ==> forall|i: int| 0 <= i < s.len() ==> s[i] != ',',
        find_comma(s) != -1 ==> 0 <= find_comma(s) < s.len() && s[find_comma(s)] == ','
            && (forall|i: int| 0 <= i < find_comma(s) ==> s[i] != ','),
    decreases s.len(),
{
    if s.len() > 0 {
        lemma_find_comma_bounds(s.drop_first());
        if s[0] != ',' {
            if find_comma(s.drop_first()) == -1 {
                assert forall|i: int| 0 <= i < s.len() implies s[i] != ',' by {
                    if i > 0 {
                        assert(s.drop_first()[i - 1] == s[i]);
                    }
                }
            } else {
                assert(s[find_comma(s)] == s.drop_first()[find_comma(s.drop_first())]);
                assert forall|i: int| 0 <= i < find_comma(s) implies s[i] != ',' by {
                    if i > 0 {
                        assert(s.drop_first()[i - 1] == s[i]);
                    }
                }
            }
        }
    }
}

/// The items of the pieces, if every piece is well formed.
pub open spec fn items_spec(pieces: Seq<Seq<char>>) -> Option<Seq<ValueView>>
    decreases pieces.len(),
{
    if pieces.len() == 0 {
        Some(Seq::empty())
    } else {
        match item_spec(pieces[0]) {
            None => None,
            Some(v) => match items_spec(pieces.drop_first()) {
                None => None,
                Some(vs) => Some(seq![v] + vs),
            },
        }
    }
}

/// What decoding a payload yields: the state values of a list payload,
/// nothing for a well-formed bare item (a valid empty-partition marker,
/// skipped), or corruption.
pub open spec fn decode_state_spec(s: Seq<char>) -> Result<Option<Seq<ValueView>>, ()> {
    if s.len() >= 2 && s[0] == '[' && s.last() == ']' {
        let inner = s.subrange(1, s.len() - 1);
        if inner.len() == 0 {
            Ok(Some(Seq::empty()))
        } else {
            match items_spec(split_commas(inner)) {
                Some(vs) => Ok(Some(vs)),
                None => Err(()),
            }
        }
    } else {
        match item_spec(s) {
            Some(_) => Ok(None),
            None => Err(()),
        }
    }
}

/// Parses the digits of `s` starting at `from`, refusing overflow.
#[verifier::loop_isolation(false)]
fn parse_digits(s: &str, from: usize, to: usize) -> (r: Option<u64>)
    requires
        from <= to <= s@.len(),
    ensures
        (match r {
            Some(v) => to > from && all_digits(s@.subrange(from as int, to as int)) && digits_val(
                s@.subrange(from as int, to as int),
            ) == v,
            None => to == from || !all_digits(s@.subrange(from as int, to as int)) || digits_val(
                s@.subrange(from as int, to as int),
            ) > u64::MAX,
        }),
{
    if to == from {
        return None;
    }
    let mut v: u64 = 0;
    let mut i: usize = from;
    while i < to
        invariant
            from <= i <= to,
            all_digits(s@.subrange(from as int, i as int)),
            digits_val(s@.subrange(from as int, i as int)) == v,
        decreases to - i,
    {
        let c = s.get_char(i);
        if !('0' <= c && c <= '9') {
            proof {
                assert(s@.subrange(from as int, to as int)[i - from] == c);
            }
            return None;
        }
        let d: u64 = (c as u32 as u64) - 48;
        proof {
            assert(d == digit_val(c));
        }
        let next = match v.checked_mul(10) {
            Some(m) => m.checked_add(d),
            None => None,
        };
        match next {
            Some(nv) => {
                v = nv;
                proof {
                    assert(s@.subrange(from as int, i + 1).drop_last() =~= s@.subrange(
                        from as int,
                        i as int,
                    ));
                    assert(s@.subrange(from as int, i + 1).last() == c);
                }
                i = i + 1;
            },
            None => {
                proof {
                    lemma_digits_val_prefix_grows(s@.subrange(from as int, to as int), i - from + 1);
                    assert(s@.subrange(from as int, to as int).take(i - from + 1) =~= s@.subrange(
                        from as int,
                        i + 1,
                    ));
                    assert(s@.subrange(from as int, i + 1).drop_last() =~= s@.subrange(
                        from as int,
                        i as int,
                    ));
                    assert(s@.subrange(from as int, i + 1).last() == c);
                }
                return None;
            },
        }
    }
    proof {
        assert(s@.subrange(from as int, i as int) =~= s@.subrange(from as int, to as int));
    }
    Some(v)
}

/// A longer all-digit prefix denotes at least as large a number.
pub proof fn lemma_digits_val_prefix_grows(s: Seq<char>, k: int)
    requires
        0 <= k <= s.len(),
    ensures
        all_digits(s) ==> digits_val(s) >= digits_val(s.take(k)) && digits_val(s.take(k)) >= 0,
    decreases s.len() - k,
{
    lemma_digits_val_nonneg(s.take(k));
    if k < s.len() {
        lemma_digits_val_prefix_grows(s, k + 1);
        if all_digits(s) {
            assert(s.take(k + 1).drop_last() =~= s.take(k));
            assert(is_digit(s.take(k + 1).last()));
        }
    } else {
        assert(s.take(k) =~= s);
    }
}

/// Digit strings denote non-negative numbers.
pub proof fn lemma_digits_val_nonneg(s: Seq<char>)
    ensures
        all_digits(s) ==> digits_val(s) >= 0,
    decreases s.len(),
{
    if s.len() > 0 {
        lemma_digits_val_nonneg(s.drop_last());
    }
}

/// Parses one bare item lying at `s[from..to]`.
#[verifier::loop_isolation(false)]
fn parse_item(s: &str, from: usize, to: usize) -> (r: Option<DataValue>)
    requires
        from <= to <= s@.len(),
    ensures
        (match r {
            Some(v) => item_spec(s@.subrange(from as int, to as int)) == Some(value_view(v)),
            None => item_spec(s@.subrange(from as int, to as int)) is None,
        }),
{
    let ghost piece = s@.subrange(from as int, to as int);
    proof {
        lemma_digits_val_nonneg(piece.skip(1));
        lemma_digits_val_nonneg(piece.skip(2));
    }
    if to == from {
        return None;
    }
    let c0 = s.get_char(from);
    proof {
        assert(piece[0] == c0);
    }
    if c0 == 'n' {
        if to - from == 1 {
            Some(DataValue::Null)
        } else if c0 == 'n' && to - from >= 2 {
            None
        } else {
            None
        }
    } else if c0 == 't' {
        if to - from == 1 {
            Some(DataValue::Boolean(true))
        } else {
            None
        }
    } else if c0 == 'f' {
        if to - from == 1 {
            Some(DataValue::Boolean(false))
        } else {
            None
        }
    } else if c0 == 'u' {
        if to - from < 2 {
            return None;
        }
        proof {
            assert(piece.skip(1) =~= s@.subrange(from + 1, to as int));
        }
        match parse_digits(s, from + 1, to) {
            Some(v) => Some(DataValue::UInt64(v)),
            None => None,
        }
    } else if c0 == 'i' {
        if to - from < 2 {
            return None;
        }
        let c1 = s.get_char(from + 1);
        proof {
            assert(piece[1] == c1);
        }
        if c1 == '-' {
            if to - from < 3 {
                return None;
            }
            proof {
                assert(piece.skip(2) =~= s@.subrange(from + 2, to as int));
            }
            match parse_digits(s, from + 2, to) {
                Some(v) => {
                    if v <= 0x8000_0000_0000_0000 {
                        let r: i64 = if v == 0x8000_0000_0000_0000 {
                            i64::MIN
                        } else {
                            -(v as i64)
                        };
                        proof {
                            assert(r as int == -digits_val(piece.skip(2)));
                        }
                        Some(DataValue::Int64(r))
                    } else {
                        None
                    }
                },
                None => None,
            }
        } else {
            proof {
                assert(piece.skip(1) =~= s@.subrange(from + 1, to as int));
            }
            match parse_digits(s, from + 1, to) {
                Some(v) => {
                    if v <= i64::MAX as u64 {
                        Some(DataValue::Int64(v as i64))
                    } else {
                        None
                    }
                },
                None => None,
            }
        }
    } else {
        None
    }
}

/// Decodes one serialized partial-state payload: the state values of a
/// list payload, `None` for a well-formed bare item (skipped), and
/// `BadState` exactly on corrupt text.
#[verifier::loop_isolation(false)]
pub fn decode_state(s: &str) -> (r: Result<Option<Vec<DataValue>>, ErrorCode>)
    ensures
        (match r {
            Ok(Some(vs)) => decode_state_spec(s@) == Ok::<Option<Seq<ValueView>>, ()>(
                Some(value_view_seq(vs@)),
            ),
            Ok(None) => decode_state_spec(s@) == Ok::<Option<Seq<ValueView>>, ()>(
                None::<Seq<ValueView>>,
            ),
            Err(e) => decode_state_spec(s@) is Err && e matches ErrorCode::BadState(_),
        }),
{
    let n = s.unicode_len();
    if n >= 2 && s.get_char(0) == '[' && s.get_char(n - 1) == ']' {
        let ghost inner = s@.subrange(1, s@.len() - 1);
        if n == 2 {
            proof {
                assert(inner.len() == 0);
            }
            return Ok(Some(Vec::new()));
        }
        let mut values: Vec<DataValue> = Vec::new();
        let mut start: usize = 1;
        let ghost gpieces = split_commas(inner);
        let ghost mut piece_idx: int = 0;
        proof {
            assert(s@.subrange(1, n - 1) =~= inner);
            assert(gpieces.skip(0) =~= gpieces);
            assert(gpieces.take(0) =~= Seq::<Seq<char>>::empty());
            lemma_split_commas_len(inner);
        }
        loop
            invariant
                1 <= start <= n - 1,
                n == s@.len(),
                n >= 3,
                inner == s@.subrange(1, s@.len() - 1),
                gpieces == split_commas(inner),
                0 <= piece_idx < gpieces.len(),
                split_commas(s@.subrange(start as int, n - 1)) == gpieces.skip(piece_idx),
                items_spec(gpieces.take(piece_idx)) == Some(value_view_seq(values@)),
            decreases n - start,
        {
            // The piece runs to the next comma, or to the closing bracket.
            let ghost rest = s@.subrange(start as int, n - 1);
            let end = scan_comma(s, start, n - 1);
            proof {
                if end < n - 1 {
                    assert(rest[end - start] == ',');
                    assert forall|k: int| 0 <= k < end - start implies rest[k] != ',' by {
                        assert(rest[k] == s@[start + k]);
                    }
                    lemma_find_comma_at(rest, end - start);
                } else {
                    assert forall|k: int| 0 <= k < rest.len() implies rest[k] != ',' by {
                        assert(rest[k] == s@[start + k]);
                    }
                    lemma_find_comma_bounds(rest);
                }
                // The current piece is exactly `s[start..end]`.
                assert(gpieces.skip(piece_idx)[0] == gpieces[piece_idx]);
                if find_comma(rest) == -1 {
                    assert(split_commas(rest) =~= seq![rest]);
                    assert(rest.take(end as int - start as int) =~= rest);
                } else {
                    assert(split_commas(rest)[0] == rest.take(end as int - start as int));
                }
                assert(rest.take(end as int - start as int) =~= s@.subrange(
                    start as int,
                    end as int,
                ));
                assert(gpieces[piece_idx] == s@.subrange(start as int, end as int));
            }
            match parse_item(s, start, end) {
                Some(v) => {
                    proof {
                        lemma_items_take_step(gpieces, piece_idx, value_view(v));
                    }
                    let ghost before = values@;
                    values.push(v);
                    proof {
                        lemma_value_view_seq_push(values@);
                        assert(values@.drop_last() =~= before);
                    }
                },
                None => {
                    proof {
                        lemma_items_none(gpieces, piece_idx);
                    }
                    return Err(ErrorCode::BadState("malformed partial-state item".to_owned()));
                },
            }
            if end == n - 1 {
                proof {
                    assert(find_comma(rest) == -1);
                    assert(split_commas(rest) =~= seq![rest]);
                    assert(gpieces.skip(piece_idx).len() == 1);
                    assert(piece_idx + 1 == gpieces.len());
                    assert(gpieces.take(piece_idx + 1) =~= gpieces);
                    assert(items_spec(gpieces) == Some(value_view_seq(values@)));
                    assert(s@[0] == '[');
                    assert(s@.last() == s@[n - 1]);
                    assert(inner.len() > 0);
                }
                return Ok(Some(values));
            }
            proof {
                assert(find_comma(rest) == end - start);
                assert(split_commas(rest) =~= seq![rest.take(end as int - start as int)]
                    + split_commas(rest.skip(end as int - start as int + 1)));
                assert(s@.subrange(end + 1, n - 1) =~= rest.skip(end as int - start as int + 1));
                assert(gpieces.skip(piece_idx + 1) =~= gpieces.skip(piece_idx).drop_first());
                assert(gpieces.skip(piece_idx).drop_first() =~= split_commas(rest).drop_first());
                assert(split_commas(rest).drop_first() =~= split_commas(
                    rest.skip(end as int - start as int + 1),
                ));
                lemma_split_commas_len(rest.skip(end as int - start as int + 1));
                assert(gpieces.skip(piece_idx + 1).len() >= 1);
                piece_idx = piece_idx + 1;
            }
            start = end + 1;
        }
    } else {
        match parse_item(s, 0, n) {
            Some(_) => {
                proof {
                    assert(s@.subrange(0, n as int) =~= s@);
                }
                Ok(None)
            },
            None => {
                proof {
                    assert(s@.subrange(0, n as int) =~= s@);
                }
                Err(ErrorCode::BadState("malformed partial-state payload".to_owned()))
            },
        }
    }
}

/// When position `i` holds the first comma, `find_comma` is `i`.
pub proof fn lemma_find_comma_at(s: Seq<char>, i: int)
    requires
        0 <= i < s.len(),
        s[i] == ',',
        forall|k: int| 0 <= k < i ==> s[k] != ',',
    ensures
        find_comma(s) == i,
    decreases i,
{
    if i > 0 {
        lemma_find_comma_at(s.drop_first(), i - 1);
    }
}

/// Split pieces never vanish: there is at least one.
pub proof fn lemma_split_commas_len(s: Seq<char>)
    ensures
        split_commas(s).len() >= 1,
    decreases s.len(),
{
    lemma_find_comma_bounds(s);
    if find_comma(s) != -1 {
        lemma_split_commas_len(s.skip(find_comma(s) + 1));
    }
}

/// Extending a well-formed prefix of items by one well-formed item.
pub proof fn lemma_items_take_step(pieces: Seq<Seq<char>>, i: int, v: ValueView)
    requires
        0 <= i < pieces.len(),
        items_spec(pieces.take(i)) is Some,
        item_spec(pieces[i]) == Some(v),
    ensures
        items_spec(pieces.take(i + 1)) == Some(items_spec(pieces.take(i))->Some_0.push(v)),
    decreases i,
{
    if i == 0 {
        assert(pieces.take(0) =~= Seq::<Seq<char>>::empty());
        assert(pieces.take(1) =~= seq![pieces[0]]);
        assert(pieces.take(1).drop_first() =~= Seq::<Seq<char>>::empty());
        assert(seq![v] + Seq::<ValueView>::empty() =~= Seq::<ValueView>::empty().push(v));
    } else {
        assert(pieces.take(i + 1).drop_first() =~= pieces.drop_first().take(i));
        assert(pieces.take(i).drop_first() =~= pieces.drop_first().take(i - 1));
        assert(pieces.take(i + 1)[0] == pieces[0]);
        assert(pieces.take(i)[0] == pieces[0]);
        assert(pieces.drop_first()[i - 1] == pieces[i]);
        match item_spec(pieces[0]) {
            None => {},
            Some(v0) => {
                lemma_items_take_step(pieces.drop_first(), i - 1, v);
                match items_spec(pieces.drop_first().take(i - 1)) {
                    None => {},
                    Some(pre0) => {
                        assert(seq![v0] + pre0.push(v) =~= (seq![v0] + pre0).push(v));
                    },
                }
            },
        }
    }
}

/// A malformed item anywhere refuses the whole list.
pub proof fn lemma_items_none(pieces: Seq<Seq<char>>, i: int)
    requires
        0 <= i < pieces.len(),
        item_spec(pieces[i]) is None,
    ensures
        items_spec(pieces) is None,
    decreases i,
{
    if i > 0 {
        lemma_items_none(pieces.drop_first(), i - 1);
    }
}

/// Pushing one value extends the view sequence by its view.
pub proof fn lemma_value_view_seq_push(vs: Seq<DataValue>)
    requires
        vs.len() > 0,
    ensures
        value_view_seq(vs) == value_view_seq(vs.drop_last()).push(value_view(vs.last())),
    decreases vs.len(),
{
    crate::values::lemma_value_view_seq_len(vs);
    crate::values::lemma_value_view_seq_len(vs.drop_last());
    assert forall|i: int| 0 <= i < vs.len() implies value_view_seq(vs)[i] == value_view_seq(
        vs.drop_last(),
    ).push(value_view(vs.last()))[i] by {
        crate::values::lemma_value_view_seq_index(vs, i);
        if i < vs.len() - 1 {
            crate::values::lemma_value_view_seq_index(vs.drop_last(), i);
        }
    }
    assert(value_view_seq(vs) =~= value_view_seq(vs.drop_last()).push(value_view(vs.last())));
}


/// The position of the first comma at or after `start`, else `stop`.
#[verifier::loop_isolation(false)]
fn scan_comma(s: &str, start: usize, stop: usize) -> (r: usize)
    requires
        start <= stop <= s@.len(),
    ensures
        start <= r <= stop,
        forall|k: int| start <= k < r ==> s@[k] != ',',
        r < stop ==> s@[r as int] == ',',
{
    let mut end: usize = start;
    while end < stop
        invariant
            start <= end <= stop,
            forall|k: int| start <= k < end ==> s@[k] != ',',
        decreases stop - end,
    {
        if s.get_char(end) == ',' {
            return end;
        }
        end = end + 1;
    }
    end
}

} // verus!
