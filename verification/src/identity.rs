//! This node's own identity, as read from the persisted settings store.
//!
//! The settings store itself (a key-value partition on flash) is an external
//! collaborator: the code here only decides what a stored value means and
//! which updates are allowed, while the caller performs the actual reads and
//! writes.

use vstd::prelude::*;

verus! {

/// The keys under which the identity fields are persisted.
pub enum NVSKeyword {
    SerialNumber,
    DeviceName,
    DeviceOwner,
}

/// What an attempted identity update should do.
///
/// `Store` means the new value is written; `Reject` means the store is left
/// untouched and the caller reports that nothing was updated.
pub enum UpdateDecision {
    Store,
    Reject,
}

/// This node's identity: immutable for the engine's purposes and exchanged
/// with every peer met.
pub struct DeviceInfo {
    pub serial_num: String,
    pub device_name: String,
    pub device_owner: String,
}

/// Mathematical image of a `DeviceInfo`: the three fields as character
/// sequences.
pub ghost struct DeviceInfoV {
    pub serial_num: Seq<char>,
    pub device_name: Seq<char>,
    pub device_owner: Seq<char>,
}

impl View for DeviceInfo {
    type V = DeviceInfoV;

    open spec fn view(&self) -> DeviceInfoV {
        DeviceInfoV {
            serial_num: self.serial_num@,
            device_name: self.device_name@,
            device_owner: self.device_owner@,
        }
    }
}

/// The value a missing identity field falls back to.
pub open spec fn unknown_field() -> Seq<char> {
    "Unknown"@
}

/// True of a decimal digit character.
pub open spec fn is_dec_digit(c: char) -> bool {
    48 <= c as int <= 57
}

/// True when every character of `s` is a decimal digit.
pub open spec fn all_dec_digits(s: Seq<char>) -> bool {
    forall|i: int| 0 <= i < s.len() ==> is_dec_digit(#[trigger] s[i])
}

/// The number the digit string `s` denotes.
pub open spec fn dec_value(s: Seq<char>) -> int
    decreases s.len(),
{
    if s.len() == 0 {
        0
    } else {
        dec_value(s.drop_last()) * 10 + (s.last() as int - 48)
    }
}

/// What `str::parse::<u32>` followed by `unwrap_or(0)` yields: the denoted
/// number for a non-empty digit string (with an optional leading plus sign)
/// that fits in 32 bits, and zero for everything else.
pub open spec fn parse_u32_or_zero(s: Seq<char>) -> u32 {
    let digits = if s.len() > 0 && s[0] == '+' {
        s.drop_first()
    } else {
        s
    };
    if digits.len() > 0 && all_dec_digits(digits) && dec_value(digits) <= 0xffff_ffff {
        dec_value(digits) as u32
    } else {
        0u32
    }
}

/// A digit string denotes a non-negative number.
proof fn lemma_dec_value_nonneg(s: Seq<char>)
    requires
        all_dec_digits(s),
    ensures
        dec_value(s) >= 0,
    decreases s.len(),
{
    if s.len() > 0 {
        assert forall|i: int| 0 <= i < s.drop_last().len() implies is_dec_digit(
            #[trigger] s.drop_last()[i],
        ) by {
            assert(s.drop_last()[i] == s[i]);
        }
        lemma_dec_value_nonneg(s.drop_last());
        assert(is_dec_digit(s.last()));
    }
}

/// Denoted values never shrink as more digits are taken.
proof fn lemma_dec_value_take_grows(s: Seq<char>, j1: int, j2: int)
    requires
        all_dec_digits(s),
        0 <= j1 <= j2 <= s.len(),
    ensures
        0 <= dec_value(s.take(j1)) <= dec_value(s.take(j2)),
    decreases j2 - j1,
{
    assert forall|i: int| 0 <= i < s.take(j1).len() implies is_dec_digit(
        #[trigger] s.take(j1)[i],
    ) by {
        assert(s.take(j1)[i] == s[i]);
    }
    lemma_dec_value_nonneg(s.take(j1));
    if j1 < j2 {
        lemma_dec_value_take_grows(s, j1, j2 - 1);
        assert(s.take(j2).drop_last() =~= s.take(j2 - 1));
        assert(s.take(j2).last() == s[j2 - 1]);
        assert(is_dec_digit(s[j2 - 1]));
    }
}

/// Reads a serial number the way the advertise role does: a non-negative
/// 32-bit decimal (an optional leading plus sign allowed), anything else
/// counting as zero.
pub fn parse_serial(s: &str) -> (value: u32)
    ensures
        value == parse_u32_or_zero(s@),
{
    let len = s.unicode_len();
    let start: usize = if len > 0 && s.get_char(0) == '+' {
        1
    } else {
        0
    };
    let ghost digits: Seq<char> = if start == 1 {
        s@.drop_first()
    } else {
        s@
    };
    if start == len {
        return 0;
    }
    let mut acc: u32 = 0;
    let mut k: usize = start;
    while k < len
        invariant
            start <= k <= len,
            len == s@.len(),
            start == 0 || start == 1,
            start == 1 ==> s@.len() > 0 && s@[0] == '+',
            start == 0 ==> !(s@.len() > 0 && s@[0] == '+'),
            digits == (if start == 1 {
                s@.drop_first()
            } else {
                s@
            }),
            digits.len() == len - start,
            forall|j: int| 0 <= j < k - start ==> is_dec_digit(#[trigger] digits[j]),
            acc == dec_value(digits.take(k - start)),
        decreases len - k,
    {
        let c = s.get_char(k);
        let d32 = c as u32;
        let ghost j = k - start;
        proof {
            assert(digits[j as int] == s@[k as int]);
        }
        if d32 < 48 || d32 > 57 {
            proof {
                assert(!is_dec_digit(digits[j as int]));
                assert(!all_dec_digits(digits));
            }
            return 0;
        }
        let d = d32 - 48;
        proof {
            assert(is_dec_digit(digits[j as int]));
            assert(digits.take(j + 1).drop_last() =~= digits.take(j as int));
            assert(digits.take(j + 1).last() == digits[j as int]);
            assert(dec_value(digits.take(j + 1)) == acc * 10 + d);
        }
        let limit = (0xffff_ffffu32 - d) / 10;
        if acc > limit {
            proof {
                assert(acc * 10 + d > 0xffff_ffff);
                if all_dec_digits(digits) {
                    lemma_dec_value_take_grows(digits, j + 1, digits.len() as int);
                    assert(digits.take(digits.len() as int) =~= digits);
                    assert(dec_value(digits) > 0xffff_ffff);
                }
            }
            return 0;
        }
        proof {
            assert(acc * 10 + d <= 0xffff_ffff);
        }
        acc = acc * 10 + d;
        k += 1;
    }
    proof {
        assert(digits.take((k - start) as int) =~= digits);
        assert(all_dec_digits(digits));
    }
    acc
}

impl NVSKeyword {
    /// The string key under which this field is stored.
    pub fn nvs_key(&self) -> (key: &'static str)
        ensures
            self is SerialNumber ==> key@ == "serial_num"@,
            self is DeviceName ==> key@ == "device_name"@,
            self is DeviceOwner ==> key@ == "device_owner"@,
    {
        match self {
            NVSKeyword::SerialNumber => "serial_num",
            NVSKeyword::DeviceName => "device_name",
            NVSKeyword::DeviceOwner => "device_owner",
        }
    }
}

impl DeviceInfo {
    /// Builds the identity from the values found in the settings store,
    /// substituting `"Unknown"` for every field that was absent or unreadable.
    pub fn new(
        serial_num: Option<String>,
        device_name: Option<String>,
        device_owner: Option<String>,
    ) -> (info: DeviceInfo)
        ensures
            info@.serial_num == (match serial_num {
                Some(s) => s@,
                None => unknown_field(),
            }),
            info@.device_name == (match device_name {
                Some(s) => s@,
                None => unknown_field(),
            }),
            info@.device_owner == (match device_owner {
                Some(s) => s@,
                None => unknown_field(),
            }),
    {
        let serial_num = match serial_num {
            Some(s) => s,
            None => String::from_str("Unknown"),
        };
        let device_name = match device_name {
            Some(s) => s,
            None => String::from_str("Unknown"),
        };
        let device_owner = match device_owner {
            Some(s) => s,
            None => String::from_str("Unknown"),
        };
        DeviceInfo { serial_num, device_name, device_owner }
    }

    /// Decides whether an update of the given field may be stored.
    ///
    /// The serial number is frozen once provisioned.  The device name may
    /// always be rewritten.  The owner may only be rewritten when an owner is
    /// already registered (`has_existing`); registering a first owner is a
    /// manual step outside this path.
    pub fn update(keyword: &NVSKeyword, has_existing: bool) -> (decision: UpdateDecision)
        ensures
            decision is Store <==> (keyword is DeviceName || (keyword is DeviceOwner
                && has_existing)),
    {
        match keyword {
            NVSKeyword::SerialNumber => UpdateDecision::Reject,
            NVSKeyword::DeviceName => UpdateDecision::Store,
            NVSKeyword::DeviceOwner => {
                if has_existing {
                    UpdateDecision::Store
                } else {
                    UpdateDecision::Reject
                }
            },
        }
    }

    /// A value-identical copy of the identity.
    pub fn duplicate(&self) -> (copy: DeviceInfo)
        ensures
            copy@ == self@,
    {
        DeviceInfo {
            serial_num: self.serial_num.clone(),
            device_name: self.device_name.clone(),
            device_owner: self.device_owner.clone(),
        }
    }

    /// The four little-endian bytes of the numeric serial, as carried in the
    /// advertised service data.
    pub fn serial_service_data(&self) -> (data: [u8; 4])
        ensures
            ({
                let v = parse_u32_or_zero(self@.serial_num) as int;
                &&& data@.len() == 4
                &&& data@[0] == v % 256
                &&& data@[1] == (v / 256) % 256
                &&& data@[2] == (v / 65536) % 256
                &&& data@[3] == v / 16777216
            }),
    {
        let v = parse_serial(self.serial_num.as_str());
        let data = [(v % 256) as u8, ((v / 256) % 256) as u8, ((v / 65536) % 256) as u8, (v
            / 16777216) as u8];
        proof {
            assert(data@ =~= seq![
                (v % 256) as u8,
                ((v / 256) % 256) as u8,
                ((v / 65536) % 256) as u8,
                (v / 16777216) as u8,
            ]);
        }
        data
    }

    /// The human-readable description of the identity, one line per field.
    pub fn describe(&self) -> (text: String)
        ensures
            text@ == "Information about device: \nSerial Number: "@ + self@.serial_num
                + "\nDevice Name: "@ + self@.device_name + "\nDevice Owner: "@
                + self@.device_owner + "\n"@,
    {
        let mut text = String::from_str("Information about device: \nSerial Number: ");
        text.append(self.serial_num.as_str());
        text.append("\nDevice Name: ");
        text.append(self.device_name.as_str());
        text.append("\nDevice Owner: ");
        text.append(self.device_owner.as_str());
        text.append("\n");
        text
    }
}

} // verus!
