//! The key-value codec: a self-describing encoding of named fields.
//!
//! A timestamp is encoded as a structure of exactly two named members, in
//! order: `sec` carrying the seconds value, then `nsec` carrying the
//! nanoseconds value. The decoder routes each member by its name — `sec` to
//! the seconds slot, `nsec` to the nanoseconds slot — so the two keys may
//! arrive in either order, and an encoding always decodes back to the value
//! it was made from. This name-to-slot routing is the committed wire contract
//! of this codec: the key `sec` always means seconds and `nsec` always means
//! nanoseconds, on encode and on decode alike.
//!
//! A key other than `sec` or `nsec` fails decoding with `UnknownField`; if
//! either name is absent once all members are consumed, decoding fails with
//! `MissingField`; a `nsec` value outside the 32-bit range fails with
//! `MalformedEncoding`. When the same key appears twice, the later value
//! replaces the earlier one.

use vstd::prelude::*;
use vstd::string::StringExecFns;

use crate::timestamp::Et;
use crate::timestamp::EtError;

verus! {

/// One named member of a key-value structure: a key and its integer value.
#[derive(Debug)]
pub struct Field {
    pub key: String,
    pub value: i64,
}

/// The mathematical model of a member: the key's characters and its value.
pub ghost struct FieldModel {
    pub key: Seq<char>,
    pub value: int,
}

impl View for Field {
    type V = FieldModel;

    open spec fn view(&self) -> FieldModel {
        FieldModel { key: self.key@, value: self.value as int }
    }
}

/// The models of a whole structure, member by member.
pub open spec fn models(fields: Seq<Field>) -> Seq<FieldModel> {
    fields.map_values(|f: Field| f@)
}

/// The two-member structure a timestamp encodes to: `sec` first, `nsec` second.
pub open spec fn spec_encode_key_value(t: Et) -> Seq<FieldModel> {
    seq![
        FieldModel { key: "sec"@, value: t.sec as int },
        FieldModel { key: "nsec"@, value: t.nsec as int },
    ]
}

/// One pass over the members, routing each value by its key. Carries the
/// seconds and nanoseconds collected so far; a later member under the same
/// key replaces an earlier one. Stops at the first unknown key, and at the
/// first `nsec` value that does not fit a 32-bit integer.
pub open spec fn spec_scan(
    fields: Seq<FieldModel>,
    sec: Option<int>,
    nsec: Option<int>,
) -> Result<(Option<int>, Option<int>), EtError>
    decreases fields.len(),
{
    if fields.len() == 0 {
        Ok((sec, nsec))
    } else {
        let f = fields[0];
        if f.key == "sec"@ {
            spec_scan(fields.drop_first(), Some(f.value), nsec)
        } else if f.key == "nsec"@ {
            if f.value < -0x8000_0000 || f.value > 0x7fff_ffff {
                Err(EtError::MalformedEncoding)
            } else {
                spec_scan(fields.drop_first(), sec, Some(f.value))
            }
        } else {
            Err(EtError::UnknownField)
        }
    }
}

/// What decoding a key-value structure yields: the timestamp rebuilt from the
/// routed `sec` and `nsec` values, or the error of the first failing member,
/// or `MissingField` if either name never appeared.
pub open spec fn spec_decode_key_value(fields: Seq<FieldModel>) -> Result<Et, EtError> {
    match spec_scan(fields, None, None) {
        Err(e) => Err(e),
        Ok((Some(s), Some(n))) => Ok(Et { sec: s as i64, nsec: n as i32 }),
        Ok(_) => Err(EtError::MissingField),
    }
}

/// The model of a partially collected seconds slot.
spec fn opt_i64(o: Option<i64>) -> Option<int> {
    match o {
        None => None,
        Some(v) => Some(v as int),
    }
}

/// The model of a partially collected nanoseconds slot.
spec fn opt_i32(o: Option<i32>) -> Option<int> {
    match o {
        None => None,
        Some(v) => Some(v as int),
    }
}

/// The key naming the seconds member.
fn sec_key() -> (k: String)
    ensures
        k@ == "sec"@,
{
    String::from_str("sec")
}

/// The key naming the nanoseconds member.
fn nsec_key() -> (k: String)
    ensures
        k@ == "nsec"@,
{
    String::from_str("nsec")
}

impl Et {
    /// Encodes the timestamp as a key-value structure of exactly two members:
    /// `sec` with the seconds value, then `nsec` with the nanoseconds value.
    pub fn encode_key_value(&self) -> (r: Vec<Field>)
        ensures
            models(r@) == spec_encode_key_value(*self),
            r@.len() == 2,
    {
        let mut out: Vec<Field> = Vec::new();
        out.push(Field { key: sec_key(), value: self.sec });
        out.push(Field { key: nsec_key(), value: self.nsec as i64 });
        proof {
            assert(models(out@) =~= spec_encode_key_value(*self));
        }
        out
    }

    /// Decodes a key-value structure, routing each member by name: `sec` to
    /// the seconds slot, `nsec` to the nanoseconds slot, in whatever order
    /// the members appear, a later duplicate replacing an earlier one. Fails
    /// with `UnknownField` at the first key other than `sec` or `nsec`, with
    /// `MalformedEncoding` at the first `nsec` value outside the 32-bit
    /// range, and with `MissingField` if either name is absent at the end.
    pub fn decode_key_value(fields: &Vec<Field>) -> (r: Result<Et, EtError>)
        ensures
            r == spec_decode_key_value(models(fields@)),
    {
        let sec_k = sec_key();
        let nsec_k = nsec_key();
        let mut osec: Option<i64> = None;
        let mut onsec: Option<i32> = None;
        let n = fields.len();
        let mut i: usize = 0;
        proof {
            assert(models(fields@).subrange(0, n as int) =~= models(fields@));
        }
        while i < n
            invariant
                n == fields@.len(),
                i <= n,
                sec_k@ == "sec"@,
                nsec_k@ == "nsec"@,
                spec_scan(models(fields@), None, None) == spec_scan(
                    models(fields@).subrange(i as int, n as int),
                    opt_i64(osec),
                    opt_i32(onsec),
                ),
            decreases n - i,
        {
            let f = &fields[i];
            proof {
                assert(models(fields@).subrange(i as int, n as int)[0] == fields@[i as int]@);
                assert(models(fields@).subrange(i as int, n as int).drop_first() =~= models(
                    fields@,
                ).subrange(i + 1, n as int));
            }
            if f.key == sec_k {
                osec = Some(f.value);
            } else if f.key == nsec_k {
                if f.value < -0x8000_0000 || f.value > 0x7fff_ffff {
                    return Err(EtError::MalformedEncoding);
                }
                onsec = Some(f.value as i32);
            } else {
                return Err(EtError::UnknownField);
            }
            i += 1;
        }
        proof {
            assert(models(fields@).subrange(n as int, n as int) =~= Seq::<FieldModel>::empty());
        }
        match osec {
            None => Err(EtError::MissingField),
            Some(s) => match onsec {
                None => Err(EtError::MissingField),
                Some(nv) => Ok(Et { sec: s, nsec: nv }),
            },
        }
    }
}

/// Round-trip law of the key-value codec: decoding an encoding yields the
/// original timestamp exactly, for every seconds/nanoseconds pair — the
/// decoder routes the `sec` member back to seconds and the `nsec` member
/// back to nanoseconds.
pub proof fn lemma_key_value_round_trip(t: Et)
    ensures
        spec_decode_key_value(spec_encode_key_value(t)) == Ok::<Et, EtError>(t),
{
    reveal_strlit("sec");
    reveal_strlit("nsec");
    let e = spec_encode_key_value(t);
    assert("sec"@.len() == 3);
    assert("nsec"@.len() == 4);
    assert(e.drop_first() =~= seq![FieldModel { key: "nsec"@, value: t.nsec as int }]);
    assert(e.drop_first().drop_first() =~= Seq::<FieldModel>::empty());
    let s = Some(t.sec as int);
    let nn = Some(t.nsec as int);
    assert(spec_scan(e, None, None) == spec_scan(e.drop_first(), s, None));
    assert(spec_scan(e.drop_first(), s, None) == spec_scan(e.drop_first().drop_first(), s, nn));
    assert(spec_scan(e.drop_first().drop_first(), s, nn) == Ok::<_, EtError>((s, nn)));
}

} // verus!
