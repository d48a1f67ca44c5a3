//! Times of day as they stand in the upstream tables, read as whole seconds.

use vstd::prelude::*;

use vstd::utf8::encode_utf8;

verus! {

/// The byte `:` that parts the fields of a time.
pub const COLON: u8 = 58;

/// The byte `+` that may stand before the digits of a field.
pub const PLUS: u8 = 43;

/// The byte `0`, the first of the ten digits.
pub const ZERO: u8 = 48;

/// Whether a byte is one of the digits `0` to `9`.
pub open spec fn is_digit(b: u8) -> bool {
    48 <= b <= 57
}

/// The fields of a text: what stands between one `:` and the next. A text
/// without `:` is one field, and so is the empty text.
pub open spec fn fields(text: Seq<u8>) -> Seq<Seq<u8>>
    decreases text.len(),
{
    if text.len() == 0 {
        seq![Seq::<u8>::empty()]
    } else {
        let before = fields(text.drop_last());
        if text.last() == COLON {
            before.push(Seq::<u8>::empty())
        } else {
            before.drop_last().push(before.last().push(text.last()))
        }
    }
}

/// The number that a run of digits writes in base ten.
pub open spec fn decimal_value(digits: Seq<u8>) -> nat
    decreases digits.len(),
{
    if digits.len() == 0 {
        0
    } else {
        decimal_value(digits.drop_last()) * 10 + (digits.last() - ZERO) as nat
    }
}

/// A field without the `+` that may stand before its digits.
pub open spec fn unsigned_part(field: Seq<u8>) -> Seq<u8> {
    if field.len() > 0 && field[0] == PLUS {
        field.drop_first()
    } else {
        field
    }
}

/// The number that a field stands for: what its digits write where the field
/// is one or more digits, with or without a `+` before them, and the number
/// fits in 32 bits; zero for every other field.
pub open spec fn field_value(field: Seq<u8>) -> nat {
    let digits = unsigned_part(field);
    if digits.len() > 0 && (forall|i: int| 0 <= i < digits.len() ==> is_digit(#[trigger] digits[i]))
        && decimal_value(digits) <= u32::MAX {
        decimal_value(digits)
    } else {
        0
    }
}

/// The fields read as the digits of a number in base sixty, the last field
/// counting once. For hours, minutes and seconds this is
/// `3600 * hours + 60 * minutes + seconds`.
pub open spec fn sexagesimal(parts: Seq<Seq<u8>>) -> nat
    decreases parts.len(),
{
    if parts.len() == 0 {
        0
    } else {
        sexagesimal(parts.drop_last()) * 60 + field_value(parts.last())
    }
}

/// The seconds since midnight that a time of day stands for, where they fit in
/// 32 bits.
pub open spec fn clock_seconds(text: Seq<u8>) -> Option<u32> {
    let total = sexagesimal(fields(text));
    if total <= u32::MAX {
        Some(total as u32)
    } else {
        None
    }
}

/// Three fields read as hours, minutes and seconds: the hours count 3600
/// times, the minutes 60 times and the seconds once.
pub proof fn lemma_hours_minutes_seconds(hours: Seq<u8>, minutes: Seq<u8>, seconds: Seq<u8>)
    ensures
        sexagesimal(seq![hours, minutes, seconds]) == 3600 * field_value(hours) + 60 * field_value(
            minutes,
        ) + field_value(seconds),
{
    let all = seq![hours, minutes, seconds];
    let two = seq![hours, minutes];
    let one = seq![hours];
    assert(all.drop_last() =~= two);
    assert(two.drop_last() =~= one);
    assert(one.drop_last() =~= Seq::<Seq<u8>>::empty());
    assert(sexagesimal(Seq::<Seq<u8>>::empty()) == 0);
    assert(one.last() == hours);
    assert(sexagesimal(one) == sexagesimal(one.drop_last()) * 60 + field_value(one.last()));
    assert(sexagesimal(one) == field_value(hours));
    assert(two.last() == minutes);
    assert(all.last() == seconds);
    assert(sexagesimal(two) == sexagesimal(one) * 60 + field_value(minutes));
    assert(sexagesimal(all) == sexagesimal(two) * 60 + field_value(seconds));
}

/// Where the reading of a text stands: the fields that are complete and the
/// one that is still open.
struct Reading {
    /// The value of the complete fields, while it fits in 32 bits.
    total: u64,
    /// Whether the value of the complete fields has outgrown 32 bits.
    total_lost: bool,
    /// How many bytes the open field has.
    length: usize,
    /// Whether the open field is still a run of digits after an optional `+`.
    clean: bool,
    /// How many digits the open field has, while it is clean.
    digits: usize,
    /// The value of the digits of the open field, while it fits in 32 bits.
    value: u64,
    /// Whether the value of the digits has outgrown 32 bits.
    value_lost: bool,
}

impl Reading {
    /// Whether the reading is a faithful account of the text read so far.
    spec fn tracks(&self, text: Seq<u8>) -> bool {
        let parts = fields(text);
        let field = parts.last();
        let digits = unsigned_part(field);
        let done = sexagesimal(parts.drop_last());
        &&& parts.len() > 0
        &&& self.length == field.len()
        &&& self.total_lost <==> done > u32::MAX
        &&& !self.total_lost ==> self.total == done
        &&& self.clean <==> forall|i: int| 0 <= i < digits.len() ==> is_digit(#[trigger] digits[i])
        &&& self.clean ==> self.digits == digits.len()
        &&& self.clean ==> (self.value_lost <==> decimal_value(digits) > u32::MAX)
        &&& self.clean && !self.value_lost ==> self.value == decimal_value(digits)
    }

    /// The value of the open field, as far as the reading knows it.
    spec fn open_value(&self) -> nat {
        if self.clean && self.digits > 0 && !self.value_lost {
            self.value as nat
        } else {
            0
        }
    }
}

/// The value that a reading gives to its open field is the value of that
/// field.
proof fn lemma_open_value(reading: Reading, text: Seq<u8>)
    requires
        reading.tracks(text),
    ensures
        reading.open_value() == field_value(fields(text).last()),
{
}

/// Reading one more byte that is not `:` lengthens the open field.
proof fn lemma_fields_grow(text: Seq<u8>, b: u8)
    requires
        b != COLON,
    ensures
        fields(text.push(b)).len() == fields(text).len(),
        fields(text).len() > 0,
        fields(text.push(b)).drop_last() == fields(text).drop_last(),
        fields(text.push(b)).last() == fields(text).last().push(b),
    decreases text.len(),
{
    lemma_fields_nonempty(text);
    assert(text.push(b).drop_last() =~= text);
    let before = fields(text);
    assert(before.drop_last().push(before.last().push(b)).drop_last() =~= before.drop_last());
}

/// Reading a `:` closes the open field and opens an empty one.
proof fn lemma_fields_split(text: Seq<u8>)
    ensures
        fields(text.push(COLON)).drop_last() == fields(text),
        fields(text.push(COLON)).last() == Seq::<u8>::empty(),
{
    assert(text.push(COLON).drop_last() =~= text);
    assert(fields(text).push(Seq::<u8>::empty()).drop_last() =~= fields(text));
}

/// A text has at least one field.
proof fn lemma_fields_nonempty(text: Seq<u8>)
    ensures
        fields(text).len() > 0,
    decreases text.len(),
{
    if text.len() > 0 {
        lemma_fields_nonempty(text.drop_last());
    }
}

/// Reads a time of day, written as hours, minutes and seconds with `:`
/// between them, as whole seconds since midnight. The text is read by its
/// bytes in UTF-8.
///
/// A field that is not a number counts as zero. The result is absent when
/// the time is, or when the seconds do not fit in 32 bits.
pub fn time_str_to_int(time: Option<String>) -> (seconds: Option<u32>)
    ensures
        seconds == match time {
            Some(text) => clock_seconds(encode_utf8(text@)),
            None => None,
        },
{
    let text = match time {
        Some(text) => text,
        None => {
            return None;
        },
    };
    let bytes = text.as_str().as_bytes();
    let mut reading = Reading {
        total: 0,
        total_lost: false,
        length: 0,
        clean: true,
        digits: 0,
        value: 0,
        value_lost: false,
    };
    let n = bytes.len();
    let mut i: usize = 0;
    proof {
        assert(bytes@.take(0) =~= Seq::<u8>::empty());
        assert(fields(Seq::<u8>::empty()).drop_last() =~= Seq::<Seq<u8>>::empty());
    }
    while i < n
        invariant
            i <= n,
            n == bytes@.len(),
            reading.tracks(bytes@.take(i as int)),
            !reading.total_lost ==> reading.total <= u32::MAX,
            reading.clean && !reading.value_lost ==> reading.value <= u32::MAX,
            reading.length <= i,
            reading.digits <= reading.length,
        decreases n - i,
    {
        let b = bytes[i];
        let ghost read = bytes@.take(i as int);
        proof {
            assert(bytes@.take(i + 1) =~= read.push(b));
            lemma_open_value(reading, read);
        }
        if b == COLON {
            proof {
                lemma_fields_split(read);
                assert(fields(read).drop_last().push(fields(read).last()) =~= fields(read));
            }
            let closed: u64 = if reading.clean && reading.digits > 0 && !reading.value_lost {
                reading.value
            } else {
                0
            };
            let (total, total_lost) = if reading.total_lost {
                (0u64, true)
            } else {
                let next: u64 = reading.total * 60 + closed;
                if next > 0xffff_ffff {
                    (0u64, true)
                } else {
                    (next, false)
                }
            };
            proof {
                assert(sexagesimal(fields(read)) == sexagesimal(fields(read).drop_last()) * 60
                    + field_value(fields(read).last()));
                if reading.total_lost {
                    assert(sexagesimal(fields(read).drop_last()) * 60 >= sexagesimal(
                        fields(read).drop_last(),
                    )) by (nonlinear_arith);
                }
            }
            reading =
            Reading {
                total,
                total_lost,
                length: 0,
                clean: true,
                digits: 0,
                value: 0,
                value_lost: false,
            };
        } else {
            proof {
                lemma_fields_grow(read, b);
            }
            let ghost field = fields(read).last();
            let ghost digits = unsigned_part(field);
            if reading.length == 0 && b == PLUS {
                proof {
                    assert(unsigned_part(field.push(b)) =~= Seq::<u8>::empty());
                }
                reading.length = 1;
            } else {
                proof {
                    assert(unsigned_part(field.push(b)) =~= digits.push(b));
                    assert(digits.push(b).drop_last() =~= digits);
                }
                if reading.clean && ZERO <= b && b <= 57 {
                    if reading.value_lost {
                        proof {
                            assert(decimal_value(digits) * 10 >= decimal_value(digits))
                                by (nonlinear_arith);
                        }
                    } else {
                        let next: u64 = reading.value * 10 + (b - ZERO) as u64;
                        if next > 0xffff_ffff {
                            reading.value = 0;
                            reading.value_lost = true;
                        } else {
                            reading.value = next;
                        }
                    }
                    reading.digits = reading.digits + 1;
                } else {
                    proof {
                        if reading.clean {
                            assert(!is_digit(digits.push(b)[digits.len() as int]));
                        } else {
                            let bad = choose|j: int| 0 <= j < digits.len() && !is_digit(digits[j]);
                            assert(!is_digit(digits.push(b)[bad]));
                        }
                    }
                    reading.clean = false;
                }
                reading.length = reading.length + 1;
            }
        }
        i += 1;
    }
    proof {
        assert(bytes@.take(n as int) =~= bytes@);
        lemma_open_value(reading, bytes@);
        let parts = fields(bytes@);
        assert(sexagesimal(parts) == sexagesimal(parts.drop_last()) * 60 + field_value(
            parts.last(),
        ));
        if reading.total_lost {
            assert(sexagesimal(parts.drop_last()) * 60 >= sexagesimal(parts.drop_last()))
                by (nonlinear_arith);
        }
    }
    if reading.total_lost {
        return None;
    }
    let last: u64 = if reading.clean && reading.digits > 0 && !reading.value_lost {
        reading.value
    } else {
        0
    };
    let total: u64 = reading.total * 60 + last;
    if total > 0xffff_ffff {
        None
    } else {
        Some(total as u32)
    }
}

} // verus!
