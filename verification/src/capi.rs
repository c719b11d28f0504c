//! The decisions behind the C interface: how its integer codes, flag words,
//! comma-separated lists and byte arrays are read, and the tables of the
//! fingerprint schema.

use vstd::prelude::*;
use crate::image::{ContrastMethod, EnhanceConfig};
use crate::schema::{ColumnConstraint, DataType, TableBuilder};
use crate::sync::{SyncStrategy, Weekday};
use crate::value::{Value, ValueView};
use crate::text::{
    ascii_lower_seq, chars_ascii_lower, chars_eq_str, chars_of, string_from_chars, trim, trim_chars,
};

verus! {

// --- Enhancement settings ---

/// The C form of `EnhanceConfig`: flags as integers (non-zero is on) and the
/// contrast method as a code (1 darkens ridges, anything else stretches).
#[derive(Debug, Clone, Copy, PartialEq, Eq, Structural)]
pub struct ZkfpEnhanceConfig {
    pub apply_enhancement: i32,
    pub method: i32,
    pub bg_intensity: u8,
    pub invert: i32,
    pub flip_vertical: i32,
    pub padding: u32,
}

/// The settings that a C configuration stands for.
pub open spec fn config_from_c(c: ZkfpEnhanceConfig) -> EnhanceConfig {
    EnhanceConfig {
        apply_enhancement: c.apply_enhancement != 0,
        method: if c.method == 1 {
            ContrastMethod::Darken
        } else {
            ContrastMethod::Stretch
        },
        bg_intensity: c.bg_intensity,
        invert: c.invert != 0,
        flip_vertical: c.flip_vertical != 0,
        padding: c.padding,
    }
}

/// The C form of settings: flags as 0 or 1, Stretch as 0 and Darken as 1.
pub open spec fn config_to_c(c: EnhanceConfig) -> ZkfpEnhanceConfig {
    ZkfpEnhanceConfig {
        apply_enhancement: if c.apply_enhancement {
            1
        } else {
            0
        },
        method: match c.method {
            ContrastMethod::Stretch => 0,
            ContrastMethod::Darken => 1,
        },
        bg_intensity: c.bg_intensity,
        invert: if c.invert {
            1
        } else {
            0
        },
        flip_vertical: if c.flip_vertical {
            1
        } else {
            0
        },
        padding: c.padding,
    }
}

impl From<ZkfpEnhanceConfig> for EnhanceConfig {
    fn from(c: ZkfpEnhanceConfig) -> (r: EnhanceConfig) {
        EnhanceConfig {
            apply_enhancement: c.apply_enhancement != 0,
            method: if c.method == 1 {
                ContrastMethod::Darken
            } else {
                ContrastMethod::Stretch
            },
            bg_intensity: c.bg_intensity,
            invert: c.invert != 0,
            flip_vertical: c.flip_vertical != 0,
            padding: c.padding,
        }
    }
}

impl vstd::std_specs::convert::FromSpecImpl<ZkfpEnhanceConfig> for EnhanceConfig {
    open spec fn obeys_from_spec() -> bool {
        true
    }

    open spec fn from_spec(c: ZkfpEnhanceConfig) -> EnhanceConfig {
        config_from_c(c)
    }
}

impl From<EnhanceConfig> for ZkfpEnhanceConfig {
    fn from(cfg: EnhanceConfig) -> (r: ZkfpEnhanceConfig) {
        ZkfpEnhanceConfig {
            apply_enhancement: if cfg.apply_enhancement {
                1
            } else {
                0
            },
            method: match cfg.method {
                ContrastMethod::Stretch => 0,
                ContrastMethod::Darken => 1,
            },
            bg_intensity: cfg.bg_intensity,
            invert: if cfg.invert {
                1
            } else {
                0
            },
            flip_vertical: if cfg.flip_vertical {
                1
            } else {
                0
            },
            padding: cfg.padding,
        }
    }
}

impl vstd::std_specs::convert::FromSpecImpl<EnhanceConfig> for ZkfpEnhanceConfig {
    open spec fn obeys_from_spec() -> bool {
        true
    }

    open spec fn from_spec(cfg: EnhanceConfig) -> ZkfpEnhanceConfig {
        config_to_c(cfg)
    }
}

/// Settings survive the trip to the C form and back; a C form read and
/// written back has its flags normalised to 0 or 1 and its method to 0 or 1.
pub proof fn law_config_roundtrip(cfg: EnhanceConfig, c: ZkfpEnhanceConfig)
    ensures
        config_from_c(config_to_c(cfg)) == cfg,
        config_to_c(config_from_c(c)) == normalized_c(c),
{
}

/// A C form with every flag and the method brought to 0 or 1.
pub open spec fn normalized_c(c: ZkfpEnhanceConfig) -> ZkfpEnhanceConfig {
    ZkfpEnhanceConfig {
        apply_enhancement: if c.apply_enhancement != 0 {
            1
        } else {
            0
        },
        method: if c.method == 1 {
            1
        } else {
            0
        },
        bg_intensity: c.bg_intensity,
        invert: if c.invert != 0 {
            1
        } else {
            0
        },
        flip_vertical: if c.flip_vertical != 0 {
            1
        } else {
            0
        },
        padding: c.padding,
    }
}

/// The contrast method of a C code: 1 darkens ridges, anything else
/// stretches.
pub fn contrast_method_from_code(method: i32) -> (r: ContrastMethod)
    ensures
        r == (if method == 1 {
            ContrastMethod::Darken
        } else {
            ContrastMethod::Stretch
        }),
{
    if method == 1 {
        ContrastMethod::Darken
    } else {
        ContrastMethod::Stretch
    }
}

// --- Codes ---

/// The column type of a C type code: 0 integer, 1 real, 2 text, 3 blob,
/// 4 boolean, 5 timestamp.
pub open spec fn data_type_of_code(code: i32) -> Option<DataType> {
    if code == 0 {
        Some(DataType::Integer)
    } else if code == 1 {
        Some(DataType::Real)
    } else if code == 2 {
        Some(DataType::Text)
    } else if code == 3 {
        Some(DataType::Blob)
    } else if code == 4 {
        Some(DataType::Boolean)
    } else if code == 5 {
        Some(DataType::Timestamp)
    } else {
        None
    }
}

/// Reads a C type code (see `data_type_of_code`).
pub fn parse_data_type(code: i32) -> (r: Option<DataType>)
    ensures
        r == data_type_of_code(code),
{
    match code {
        0 => Some(DataType::Integer),
        1 => Some(DataType::Real),
        2 => Some(DataType::Text),
        3 => Some(DataType::Blob),
        4 => Some(DataType::Boolean),
        5 => Some(DataType::Timestamp),
        _ => None,
    }
}

/// The sync strategy of a C code: 0 replace, 1 append, 2 upsert.
pub fn parse_strategy(strategy: i32) -> (r: Result<SyncStrategy, String>)
    ensures
        strategy == 0 ==> r == Ok::<SyncStrategy, String>(SyncStrategy::Replace),
        strategy == 1 ==> r == Ok::<SyncStrategy, String>(SyncStrategy::Append),
        strategy == 2 ==> r == Ok::<SyncStrategy, String>(SyncStrategy::Upsert),
        !(0 <= strategy <= 2) ==> (r matches Err(m) && m@ == "Invalid sync strategy"@),
{
    match strategy {
        0 => Ok(SyncStrategy::Replace),
        1 => Ok(SyncStrategy::Append),
        2 => Ok(SyncStrategy::Upsert),
        _ => Err(String::from_str("Invalid sync strategy")),
    }
}

/// Primary key flag of a column flag word.
pub const FLAG_PRIMARY_KEY: u32 = 0x01;
/// Not-null flag.
pub const FLAG_NOT_NULL: u32 = 0x02;
/// Unique flag.
pub const FLAG_UNIQUE: u32 = 0x04;
/// Auto-increment flag.
pub const FLAG_AUTO_INCREMENT: u32 = 0x08;
/// Foreign key flag (needs the referenced table and column).
pub const FLAG_FOREIGN_KEY: u32 = 0x10;

/// `c` when `b` holds, else nothing.
pub open spec fn constraint_if(b: bool, c: ColumnConstraint) -> Seq<ColumnConstraint> {
    if b {
        seq![c]
    } else {
        Seq::empty()
    }
}

/// The constraints without references that a flag word asks for, in this
/// order: primary key, not null, unique, auto-increment.
pub open spec fn constraints_of_flags(flags: u32) -> Seq<ColumnConstraint> {
    constraint_if(flags & 0x01 != 0, ColumnConstraint::PrimaryKey) + constraint_if(
        flags & 0x02 != 0,
        ColumnConstraint::NotNull,
    ) + constraint_if(flags & 0x04 != 0, ColumnConstraint::Unique) + constraint_if(
        flags & 0x08 != 0,
        ColumnConstraint::AutoIncrement,
    )
}

/// Reads a column flag word: the constraints of `constraints_of_flags`,
/// then a foreign key when its flag is set and both the referenced table
/// and column are given.
pub fn parse_constraints(flags: u32, foreign_table: Option<&str>, foreign_column: Option<&str>) -> (r:
    Vec<ColumnConstraint>)
    ensures
        ({
            let basic = constraints_of_flags(flags);
            let fk = flags & 0x10 != 0 && foreign_table is Some && foreign_column is Some;
            &&& r@.len() == basic.len() + if fk {
                1int
            } else {
                0int
            }
            &&& r@.take(basic.len() as int) == basic
            &&& fk ==> (r@.last() matches ColumnConstraint::ForeignKey { table: t, column: c } && t@
                == foreign_table->0@ && c@ == foreign_column->0@)
        }),
{
    let mut out: Vec<ColumnConstraint> = Vec::new();
    if flags & 0x01 != 0 {
        out.push(ColumnConstraint::PrimaryKey);
    }
    if flags & 0x02 != 0 {
        out.push(ColumnConstraint::NotNull);
    }
    if flags & 0x04 != 0 {
        out.push(ColumnConstraint::Unique);
    }
    if flags & 0x08 != 0 {
        out.push(ColumnConstraint::AutoIncrement);
    }
    let ghost base = out@;
    assert(base =~= constraints_of_flags(flags));
    if flags & 0x10 != 0 {
        match (foreign_table, foreign_column) {
            (Some(t), Some(c)) => {
                out.push(
                    ColumnConstraint::ForeignKey {
                        table: String::from_str(t),
                        column: String::from_str(c),
                    },
                );
                assert(out@.take(base.len() as int) =~= base);
            },
            _ => {
                assert(out@.take(base.len() as int) =~= base);
            },
        }
    } else {
        assert(out@.take(base.len() as int) =~= base);
    }
    out
}

// --- Weekdays and comma-separated lists ---

/// The weekday that a lower-case name stands for: the three-letter
/// abbreviation, the full name, and `tues` and `thurs`.
pub open spec fn weekday_named(s: Seq<char>) -> Option<Weekday> {
    if s == "mon"@ || s == "monday"@ {
        Some(Weekday::Mon)
    } else if s == "tue"@ || s == "tues"@ || s == "tuesday"@ {
        Some(Weekday::Tue)
    } else if s == "wed"@ || s == "wednesday"@ {
        Some(Weekday::Wed)
    } else if s == "thu"@ || s == "thurs"@ || s == "thursday"@ {
        Some(Weekday::Thu)
    } else if s == "fri"@ || s == "friday"@ {
        Some(Weekday::Fri)
    } else if s == "sat"@ || s == "saturday"@ {
        Some(Weekday::Sat)
    } else if s == "sun"@ || s == "sunday"@ {
        Some(Weekday::Sun)
    } else {
        None
    }
}

/// Reads a weekday name, ignoring surrounding white space and letter case.
/// (The names are plain ASCII and hold no `k`, so ASCII case folding
/// accepts exactly the tokens that full Unicode lower-casing accepts.)
pub fn parse_weekday(token: &str) -> (r: Option<Weekday>)
    ensures
        r == weekday_named(ascii_lower_seq(trim(token@))),
{
    let c = chars_of(token);
    let t = trim_chars(c.as_slice());
    let l = chars_ascii_lower(t.as_slice());
    let s = l.as_slice();
    if chars_eq_str(s, "mon") || chars_eq_str(s, "monday") {
        Some(Weekday::Mon)
    } else if chars_eq_str(s, "tue") || chars_eq_str(s, "tues") || chars_eq_str(s, "tuesday") {
        Some(Weekday::Tue)
    } else if chars_eq_str(s, "wed") || chars_eq_str(s, "wednesday") {
        Some(Weekday::Wed)
    } else if chars_eq_str(s, "thu") || chars_eq_str(s, "thurs") || chars_eq_str(s, "thursday") {
        Some(Weekday::Thu)
    } else if chars_eq_str(s, "fri") || chars_eq_str(s, "friday") {
        Some(Weekday::Fri)
    } else if chars_eq_str(s, "sat") || chars_eq_str(s, "saturday") {
        Some(Weekday::Sat)
    } else if chars_eq_str(s, "sun") || chars_eq_str(s, "sunday") {
        Some(Weekday::Sun)
    } else {
        None
    }
}

/// The pieces of `s` between commas, as `str::split(',')` gives them (an
/// empty string is one empty piece).
pub open spec fn split_commas(s: Seq<char>) -> Seq<Seq<char>>
    decreases s.len(),
{
    if s.len() == 0 {
        seq![Seq::empty()]
    } else if s.last() == ',' {
        split_commas(s.drop_last()).push(Seq::empty())
    } else {
        let p = split_commas(s.drop_last());
        p.update(p.len() - 1, p.last().push(s.last()))
    }
}

/// The pieces trimmed of white space, the empty ones left out.
pub open spec fn csv_items(parts: Seq<Seq<char>>) -> Seq<Seq<char>>
    decreases parts.len(),
{
    if parts.len() == 0 {
        Seq::empty()
    } else {
        let r = csv_items(parts.drop_last());
        let t = trim(parts.last());
        if t.len() > 0 {
            r.push(t)
        } else {
            r
        }
    }
}

proof fn lemma_split_nonempty(s: Seq<char>)
    ensures
        split_commas(s).len() >= 1,
    decreases s.len(),
{
    if s.len() > 0 {
        lemma_split_nonempty(s.drop_last());
    }
}

/// The non-empty, trimmed items of a comma-separated list.
pub fn parse_csv(csv: &str) -> (r: Vec<String>)
    ensures
        r@.map_values(|x: String| x@) == csv_items(split_commas(csv@)),
{
    let c = chars_of(csv);
    let n = c.len();
    let mut out: Vec<String> = Vec::new();
    let mut cur: Vec<char> = Vec::new();
    let mut i: usize = 0;
    while i < n
        invariant
            n == c@.len(),
            c@ == csv@,
            i <= n,
            split_commas(c@.take(i as int)).len() >= 1,
            cur@ == split_commas(c@.take(i as int)).last(),
            out@.map_values(|x: String| x@) == csv_items(split_commas(c@.take(i as int)).drop_last()),
        decreases n - i,
    {
        let ghost p = split_commas(c@.take(i as int));
        assert(c@.take(i as int + 1).drop_last() =~= c@.take(i as int));
        assert(c@.take(i as int + 1).last() == c@[i as int]);
        if c[i] == ',' {
            let t = trim_chars(cur.as_slice());
            let ghost before = out@;
            if t.len() > 0 {
                out.push(string_from_chars(t.as_slice()));
            }
            cur = Vec::new();
            proof {
                let q = split_commas(c@.take(i as int + 1));
                assert(q == p.push(Seq::empty()));
                assert(q.drop_last() =~= p);
                assert(p.drop_last().push(p.last()) =~= p);
                assert(csv_items(p) == csv_items(p.drop_last().push(p.last())));
                assert(out@.map_values(|x: String| x@) =~= csv_items(q.drop_last()));
                assert(cur@ =~= q.last());
            }
        } else {
            let ghost before_cur = cur@;
            cur.push(c[i]);
            proof {
                let q = split_commas(c@.take(i as int + 1));
                assert(q == p.update(p.len() - 1, p.last().push(c@[i as int])));
                assert(q.drop_last() =~= p.drop_last());
                assert(cur@ =~= q.last());
            }
        }
        i = i + 1;
    }
    assert(c@.take(n as int) =~= c@);
    let ghost p = split_commas(c@);
    let t = trim_chars(cur.as_slice());
    if t.len() > 0 {
        out.push(string_from_chars(t.as_slice()));
    }
    proof {
        assert(p.drop_last().push(p.last()) =~= p);
        assert(out@.map_values(|x: String| x@) =~= csv_items(p));
    }
    out
}

/// The weekdays of a comma-separated list; names that are not weekdays are
/// skipped, and a list with no weekday at all is an error.
pub fn weekdays_from_csv(csv: &str) -> (r: Result<Vec<Weekday>, String>)
    ensures
        ({
            let named = csv_items(split_commas(csv@)).map_values(
                |x: Seq<char>| weekday_named(ascii_lower_seq(trim(x))),
            );
            match r {
                Ok(days) => days@.len() > 0 && days@ == somes(named),
                Err(m) => somes(named).len() == 0 && m@ == "No valid weekdays provided"@,
            }
        }),
{
    let items = parse_csv(csv);
    let ghost named = csv_items(split_commas(csv@)).map_values(
        |x: Seq<char>| weekday_named(ascii_lower_seq(trim(x))),
    );
    let mut days: Vec<Weekday> = Vec::new();
    let mut i: usize = 0;
    while i < items.len()
        invariant
            i <= items@.len(),
            items@.map_values(|x: String| x@) == csv_items(split_commas(csv@)),
            named == csv_items(split_commas(csv@)).map_values(
                |x: Seq<char>| weekday_named(ascii_lower_seq(trim(x))),
            ),
            days@ == somes(named.take(i as int)),
        decreases items@.len() - i,
    {
        assert(named.take(i as int + 1).drop_last() =~= named.take(i as int));
        assert(items@.map_values(|x: String| x@)[i as int] == items@[i as int]@);
        match parse_weekday(items[i].as_str()) {
            Some(d) => days.push(d),
            None => {},
        }
        i = i + 1;
    }
    assert(named.take(named.len() as int) =~= named);
    if days.len() == 0 {
        return Err(String::from_str("No valid weekdays provided"));
    }
    Ok(days)
}

/// The values present in a sequence of options, in order.
pub open spec fn somes<A>(s: Seq<Option<A>>) -> Seq<A>
    decreases s.len(),
{
    if s.len() == 0 {
        Seq::empty()
    } else {
        match s.last() {
            Some(a) => somes(s.drop_last()).push(a),
            None => somes(s.drop_last()),
        }
    }
}

/// The unique key columns of a sync mapping from the C interface: `id` when
/// no list is given, else the items of the list.
pub fn unique_keys_from_csv(csv: Option<&str>) -> (r: Vec<String>)
    ensures
        csv is None ==> r@.map_values(|x: String| x@) == seq!["id"@],
        csv matches Some(s) ==> r@.map_values(|x: String| x@) == csv_items(split_commas(s@)),
{
    match csv {
        None => {
            let mut v: Vec<String> = Vec::new();
            v.push(String::from_str("id"));
            assert(v@.map_values(|x: String| x@) =~= seq!["id"@]);
            v
        },
        Some(s) => parse_csv(s),
    }
}

// --- Blob values from JSON ---

/// A JSON array item that is a byte: an unsigned integer up to 255 (items
/// that are not unsigned integers are given as `None`).
pub open spec fn is_byte_item(x: Option<u64>) -> bool {
    x matches Some(n) && n <= 255
}

/// Reads the bytes of a blob given as a JSON array. The first item that is
/// not an unsigned integer, or is above 255, refuses the whole array.
pub fn blob_from_json_numbers(items: &[Option<u64>]) -> (r: Result<Vec<u8>, String>)
    ensures
        match r {
            Ok(b) => (forall|i: int| 0 <= i < items@.len() ==> is_byte_item(#[trigger] items@[i]))
                && b@.len() == items@.len() && forall|i: int|
                0 <= i < items@.len() ==> #[trigger] b@[i] == items@[i]->0,
            Err(m) => exists|i: int|
                0 <= i < items@.len() && !is_byte_item(items@[i]) && (forall|j: int|
                    0 <= j < i ==> is_byte_item(#[trigger] items@[j])) && m@ == (if items@[i] is None {
                    "Blob JSON arrays must contain only unsigned byte values"@
                } else {
                    "Blob JSON arrays must contain values between 0 and 255"@
                }),
        },
{
    let mut bytes: Vec<u8> = Vec::with_capacity(items.len());
    let mut i: usize = 0;
    while i < items.len()
        invariant
            i <= items@.len(),
            bytes@.len() == i,
            forall|j: int| 0 <= j < i ==> is_byte_item(#[trigger] items@[j]),
            forall|j: int| 0 <= j < i ==> #[trigger] bytes@[j] == items@[j]->0,
        decreases items@.len() - i,
    {
        match items[i] {
            None => {
                return Err(String::from_str("Blob JSON arrays must contain only unsigned byte values"));
            },
            Some(n) => {
                if n > 255 {
                    return Err(String::from_str("Blob JSON arrays must contain values between 0 and 255"));
                }
                bytes.push(n as u8);
            },
        }
        i = i + 1;
    }
    Ok(bytes)
}

// --- Fingerprint schema ---

/// The users table of the fingerprint schema: one non-null text column for
/// the user's name.
pub fn fingerprint_users_table(users_table: &str, user_name_column: &str) -> (r: TableBuilder)
    ensures
        r.name@ == users_table@,
        r.columns@.len() == 1,
        r.columns@[0].name@ == user_name_column@,
        r.columns@[0].data_type == DataType::Text,
        r.columns@[0].constraints@ == seq![ColumnConstraint::NotNull],
{
    let mut cs: Vec<ColumnConstraint> = Vec::new();
    cs.push(ColumnConstraint::NotNull);
    let r = TableBuilder::new(users_table).column(user_name_column, DataType::Text, cs);
    assert(r.columns@[0] == r.columns@.last());
    r
}

fn not_null() -> (r: Vec<ColumnConstraint>)
    ensures
        r@ == seq![ColumnConstraint::NotNull],
{
    let mut cs: Vec<ColumnConstraint> = Vec::new();
    cs.push(ColumnConstraint::NotNull);
    assert(cs@ =~= seq![ColumnConstraint::NotNull]);
    cs
}

/// The templates table of the fingerprint schema: non-null columns for the
/// user id (integer), the finger (integer), the template bytes (blob) and
/// the quality (integer), in this order.
pub fn fingerprint_templates_table(
    templates_table: &str,
    user_id_column: &str,
    finger_column: &str,
    data_column: &str,
    quality_column: &str,
) -> (r: TableBuilder)
    ensures
        r.name@ == templates_table@,
        r.columns@.len() == 4,
        r.columns@[0].name@ == user_id_column@ && r.columns@[0].data_type == DataType::Integer,
        r.columns@[1].name@ == finger_column@ && r.columns@[1].data_type == DataType::Integer,
        r.columns@[2].name@ == data_column@ && r.columns@[2].data_type == DataType::Blob,
        r.columns@[3].name@ == quality_column@ && r.columns@[3].data_type == DataType::Integer,
        forall|i: int| 0 <= i < 4 ==> (#[trigger] r.columns@[i]).constraints@ == seq![ColumnConstraint::NotNull],
{
    let b0 = TableBuilder::new(templates_table);
    let b1 = b0.column(user_id_column, DataType::Integer, not_null());
    let b2 = b1.column(finger_column, DataType::Integer, not_null());
    let b3 = b2.column(data_column, DataType::Blob, not_null());
    let b4 = b3.column(quality_column, DataType::Integer, not_null());
    proof {
        assert(b4.columns@.drop_last().drop_last().drop_last() == b1.columns@);
        assert(b4.columns@[0] == b1.columns@[0]);
        assert(b4.columns@[1] == b2.columns@[1]);
        assert(b4.columns@[2] == b3.columns@[2]);
    }
    b4
}


// --- Gallery rows ---

/// The digits of `s` are all decimal digits.
pub open spec fn all_digits(s: Seq<char>) -> bool {
    forall|i: int| 0 <= i < s.len() ==> '0' <= #[trigger] s[i] <= '9'
}

/// The number that a string of decimal digits spells.
pub open spec fn digits_value(s: Seq<char>) -> nat
    decreases s.len(),
{
    if s.len() == 0 {
        0
    } else {
        digits_value(s.drop_last()) * 10 + ((s.last() as u32) - 48) as nat
    }
}

/// What `str::parse::<u32>` reads from `s`: an optional `+`, then one or
/// more decimal digits whose value fits in 32 bits.
pub open spec fn u32_text_value(s: Seq<char>) -> Option<u32> {
    let d = if s.len() > 0 && s[0] == '+' {
        s.skip(1)
    } else {
        s
    };
    if d.len() > 0 && all_digits(d) && digits_value(d) <= u32::MAX {
        Some(digits_value(d) as u32)
    } else {
        None
    }
}

/// `x`, or `u32::MAX + 1` when it is larger.
pub open spec fn capped(x: nat) -> nat {
    if x > 0x1_0000_0000 {
        0x1_0000_0000
    } else {
        x
    }
}

/// Reads a decimal user id the way `str::parse::<u32>` does.
pub fn parse_u32_text(s: &str) -> (r: Option<u32>)
    ensures
        r == u32_text_value(s@),
{
    let c = chars_of(s);
    let n = c.len();
    let start: usize = if n > 0 && c[0] == '+' {
        1
    } else {
        0
    };
    let ghost d = if s@.len() > 0 && s@[0] == '+' {
        s@.skip(1)
    } else {
        s@
    };
    assert(d =~= c@.skip(start as int));
    if start == n {
        return None;
    }
    let mut v: u64 = 0;
    let mut i: usize = start;
    while i < n
        invariant
            c@ == s@,
            n == c@.len(),
            start <= i <= n,
            d == c@.skip(start as int),
            d == (if s@.len() > 0 && s@[0] == '+' {
                s@.skip(1)
            } else {
                s@
            }),
            all_digits(c@.subrange(start as int, i as int)),
            v == capped(digits_value(c@.subrange(start as int, i as int))),
        decreases n - i,
    {
        let ch = c[i];
        if ch < '0' || ch > '9' {
            assert(!all_digits(d)) by {
                assert(d[i - start] == ch);
                assert(!('0' <= d[i - start] <= '9'));
            }
            return None;
        }
        let digit = (ch as u32 - 48) as u64;
        let ghost prev = c@.subrange(start as int, i as int);
        let ghost next = c@.subrange(start as int, i as int + 1);
        assert(next.drop_last() =~= prev);
        assert(next.last() == ch);
        v = if v * 10 + digit > 0x1_0000_0000 {
            0x1_0000_0000
        } else {
            v * 10 + digit
        };
        assert(all_digits(next)) by {
            assert forall|k: int| 0 <= k < next.len() implies '0' <= #[trigger] next[k] <= '9' by {
                if k < prev.len() {
                    assert(next[k] == prev[k]);
                }
            }
        }
        i = i + 1;
    }
    assert(c@.subrange(start as int, n as int) =~= d);
    if v > 0xffff_ffff {
        None
    } else {
        Some(v as u32)
    }
}

/// The user id of a gallery row: an integer column read as `u32` (keeping
/// its low 32 bits), or a text column holding a decimal number; other
/// values give none.
pub fn gallery_user_id(v: &Value) -> (r: Option<u32>)
    ensures
        match v@ {
            ValueView::Integer(i) => r == Some(i as u32),
            ValueView::Text(t) => r == u32_text_value(t),
            _ => r is None,
        },
{
    match v {
        Value::Integer(i) => Some(#[verifier::truncate] (*i as u32)),
        Value::Text(t) => parse_u32_text(t.as_str()),
        _ => None,
    }
}

/// The template bytes of a gallery row: only a blob column holds them.
pub fn gallery_template_bytes(v: &Value) -> (r: Option<Vec<u8>>)
    ensures
        match v@ {
            ValueView::Blob(b) => r matches Some(x) && x@ == b,
            _ => r is None,
        },
{
    match v {
        Value::Blob(b) => {
            let c = b.clone();
            assert(c@ =~= b@);
            Some(c)
        },
        _ => None,
    }
}

/// What the C interface reports of a verified identification: whether the
/// identification matched (a candidate at or above the threshold), whether
/// its verification matched, and the overall outcome (both).
pub fn verified_match_flags(
    user_id: Option<u32>,
    identify_score: i32,
    verify_score: i32,
    threshold: i32,
    verify_threshold: i32,
) -> (r: (bool, bool, bool))
    ensures
        r.0 == (identify_score >= threshold && user_id is Some),
        r.1 == (verify_score >= verify_threshold),
        r.2 == (r.0 && r.1),
{
    let identify_match = identify_score >= threshold && user_id.is_some();
    let verify_match = verify_score >= verify_threshold;
    (identify_match, verify_match, identify_match && verify_match)
}

} // verus!
