//! Schema-driven metadata validation and cleanup: a metadata blob is checked
//! against a vault's field definitions, and keys that no longer name a field
//! definition are dropped on the next write.

use vstd::prelude::*;
use crate::fields::FieldDefinitionDto;
use crate::fields::FieldType;
use crate::meta::MetaPair;
use crate::meta::MetaValue;
use crate::meta::MetaScalar;
use crate::meta::ScalarPair;
use crate::meta::meta_parse;
use crate::meta::meta_ser;
use crate::meta::parse_metadata_text;
use crate::meta::metadata_to_text;
use crate::text::i64_dec_spec;
use crate::text::i32_to_string;
use crate::text::i64_to_string;
use crate::text::parse_i32_spec;
use crate::text::all_digits;
use crate::text::dec_digit;
use crate::text::digits_val;
use crate::text::digit_val;
use crate::text::is_dec_digit;
use crate::text::u64_dec_spec;
use crate::text::parse_i32_str;
use crate::text::starts_with_spec;
use crate::text::str_eq_str;
use crate::text::str_starts_with;

verus! {

/// True when a date string satisfies `chrono`'s `%Y-%m-%d` parse: the result
/// depends on the text alone.
pub uninterp spec fn chrono_ymd_ok(s: Seq<char>) -> bool;

/// Relies on `chrono::NaiveDate::parse_from_str` with the format `%Y-%m-%d`
/// to decide whether a string is a valid calendar date.
#[verifier::external_body]
fn is_ymd_date(s: &str) -> (r: bool)
    ensures
        r == chrono_ymd_ok(s@),
{
    chrono::NaiveDate::parse_from_str(s, "%Y-%m-%d").is_ok()
}

/// The value stored under a key: the first matching pair decides.
pub open spec fn lookup_value(m: Seq<MetaPair>, key: Seq<char>) -> Option<MetaValue>
    decreases m.len(),
{
    if m.len() == 0 {
        None
    } else if m[0].key@ == key {
        Some(m[0].value)
    } else {
        lookup_value(m.drop_first(), key)
    }
}

/// The member of an object value under a key: the first match decides.
pub open spec fn lookup_scalar(m: Seq<ScalarPair>, key: Seq<char>) -> Option<MetaScalar>
    decreases m.len(),
{
    if m.len() == 0 {
        None
    } else if m[0].key@ == key {
        Some(m[0].value)
    } else {
        lookup_scalar(m.drop_first(), key)
    }
}

/// The member under a key when it is a number with an exact 64-bit integer
/// value.
pub open spec fn obj_int(m: Seq<ScalarPair>, key: Seq<char>) -> Option<i64> {
    match lookup_scalar(m, key) {
        Some(MetaScalar::Int(n)) => Some(n),
        _ => None,
    }
}

/// The metadata key under which a field definition's value is stored: the
/// decimal rendering of the field id.
pub open spec fn field_key(f: FieldDefinitionDto) -> Seq<char> {
    i64_dec_spec(f.id as int)
}

/// True when a required field's value is absent or null.
pub open spec fn required_missing(f: FieldDefinitionDto, m: Seq<MetaPair>) -> bool {
    match lookup_value(m, field_key(f)) {
        None => true,
        Some(v) => v is Null,
    }
}

/// The first field definition bearing an id.
pub open spec fn find_field(fields: Seq<FieldDefinitionDto>, id: i32) -> Option<
    FieldDefinitionDto,
>
    decreases fields.len(),
{
    if fields.len() == 0 {
        None
    } else if fields[0].id == id {
        Some(fields[0])
    } else {
        find_field(fields.drop_first(), id)
    }
}

pub open spec fn msg_required(name: Seq<char>) -> Seq<char> {
    "Field '"@ + name + "' is required"@
}

pub open spec fn msg_bad_key(key: Seq<char>) -> Seq<char> {
    "Invalid metadata key '"@ + key + "': not a valid field ID"@
}

pub open spec fn msg_orphan(id: int) -> Seq<char> {
    "Orphan data detected: field ID "@ + i64_dec_spec(id) + " no longer exists"@
}

pub open spec fn msg_expected_text(name: Seq<char>) -> Seq<char> {
    "Field '"@ + name + "': expected text value"@
}

pub open spec fn msg_text_too_long(name: Seq<char>, limit: int) -> Seq<char> {
    "Field '"@ + name + "': text exceeds maximum length of "@ + i64_dec_spec(limit)
}

pub open spec fn msg_expected_number(name: Seq<char>) -> Seq<char> {
    "Field '"@ + name + "': expected number value"@
}

pub open spec fn msg_below_min(name: Seq<char>, value: int, min: int) -> Seq<char> {
    "Field '"@ + name + "': value "@ + i64_dec_spec(value) + " is below minimum "@ + i64_dec_spec(
        min,
    )
}

pub open spec fn msg_above_max(name: Seq<char>, value: int, max: int) -> Seq<char> {
    "Field '"@ + name + "': value "@ + i64_dec_spec(value) + " exceeds maximum "@ + i64_dec_spec(
        max,
    )
}

pub open spec fn msg_date_not_string() -> Seq<char> {
    "Date field: expected string value"@
}

pub open spec fn msg_bad_date(s: Seq<char>) -> Seq<char> {
    "Invalid date format '"@ + s + "': expected YYYY-MM-DD"@
}

pub open spec fn msg_url_not_string() -> Seq<char> {
    "URL field: expected string value"@
}

pub open spec fn msg_bad_url(s: Seq<char>) -> Seq<char> {
    "Invalid URL '"@ + s + "': must start with http:// or https://"@
}

pub open spec fn msg_expected_bool() -> Seq<char> {
    "Boolean field: expected true or false"@
}

pub open spec fn msg_expected_select(name: Seq<char>) -> Seq<char> {
    "Field '"@ + name + "': expected string value for select"@
}

pub open spec fn msg_bad_choice(name: Seq<char>, sel: Seq<char>) -> Seq<char> {
    "Field '"@ + name + "': '"@ + sel + "' is not a valid choice"@
}

pub open spec fn msg_expected_relation(name: Seq<char>) -> Seq<char> {
    "Field '"@ + name + "': expected object with entry_id and vault_id"@
}

pub open spec fn msg_bad_entry_id(name: Seq<char>) -> Seq<char> {
    "Field '"@ + name + "': missing or invalid entry_id"@
}

pub open spec fn msg_bad_vault_id(name: Seq<char>) -> Seq<char> {
    "Field '"@ + name + "': missing or invalid vault_id"@
}

pub open spec fn msg_vault_mismatch(name: Seq<char>, vault_id: int, target: int) -> Seq<char> {
    "Field '"@ + name + "': vault_id "@ + i64_dec_spec(vault_id)
        + " does not match target vault "@ + i64_dec_spec(target)
}

pub open spec fn msg_entry_id_positive(name: Seq<char>) -> Seq<char> {
    "Field '"@ + name + "': entry_id must be positive"@
}

pub open spec fn msg_vault_id_positive(name: Seq<char>) -> Seq<char> {
    "Field '"@ + name + "': vault_id must be positive"@
}

/// True when a select value is one of the configured choices.
pub open spec fn choices_contain(cs: Seq<String>, sel: Seq<char>) -> bool {
    exists|i: int| 0 <= i < cs.len() && #[trigger] cs[i]@ == sel
}

/// The error a number value with an exact integer value receives against the
/// configured inclusive bounds, if any.
pub open spec fn number_bounds_error(f: FieldDefinitionDto, n: i64) -> Option<Seq<char>> {
    match f.options {
        None => None,
        Some(o) => if o.min is Some && n < o.min->Some_0 {
            Some(msg_below_min(f.name@, n as int, o.min->Some_0 as int))
        } else if o.max is Some && n > o.max->Some_0 {
            Some(msg_above_max(f.name@, n as int, o.max->Some_0 as int))
        } else {
            None
        },
    }
}

/// The error a relation object receives: it must carry positive integer
/// `entry_id` and `vault_id` members, and match the configured target vault.
pub open spec fn relation_error(f: FieldDefinitionDto, pairs: Seq<ScalarPair>) -> Option<
    Seq<char>,
> {
    match obj_int(pairs, "entry_id"@) {
        None => Some(msg_bad_entry_id(f.name@)),
        Some(eid) => match obj_int(pairs, "vault_id"@) {
            None => Some(msg_bad_vault_id(f.name@)),
            Some(vid) => {
                let target_set = f.options is Some && f.options->Some_0.target_vault_id is Some;
                if target_set && vid != f.options->Some_0.target_vault_id->Some_0 as i64 {
                    Some(
                        msg_vault_mismatch(
                            f.name@,
                            vid as int,
                            f.options->Some_0.target_vault_id->Some_0 as int,
                        ),
                    )
                } else if eid <= 0 {
                    Some(msg_entry_id_positive(f.name@))
                } else if vid <= 0 {
                    Some(msg_vault_id_positive(f.name@))
                } else {
                    None
                }
            },
        },
    }
}

/// The error a value receives under its field's declared type, or nothing
/// when it passes. Range checks on numbers are enforced against values with
/// an exact 64-bit integer value; other numeric values pass the range check.
pub open spec fn validate_value_spec(f: FieldDefinitionDto, v: MetaValue) -> Option<Seq<char>> {
    match f.field_type {
        FieldType::Text => match v {
            MetaValue::Str(s) => {
                let limited = f.options is Some && f.options->Some_0.max_length is Some;
                if limited && s@.len() > f.options->Some_0.max_length->Some_0 {
                    Some(msg_text_too_long(f.name@, f.options->Some_0.max_length->Some_0 as int))
                } else {
                    None
                }
            },
            _ => Some(msg_expected_text(f.name@)),
        },
        FieldType::Number => match v {
            MetaValue::Int(n) => number_bounds_error(f, n),
            MetaValue::OtherNum(_) => None,
            _ => Some(msg_expected_number(f.name@)),
        },
        FieldType::Date => match v {
            MetaValue::Str(s) => if chrono_ymd_ok(s@) {
                None
            } else {
                Some(msg_bad_date(s@))
            },
            _ => Some(msg_date_not_string()),
        },
        FieldType::Url => match v {
            MetaValue::Str(s) => if starts_with_spec(s@, "http://"@) || starts_with_spec(
                s@,
                "https://"@,
            ) {
                None
            } else {
                Some(msg_bad_url(s@))
            },
            _ => Some(msg_url_not_string()),
        },
        FieldType::Boolean => if v is Bool {
            None
        } else {
            Some(msg_expected_bool())
        },
        FieldType::Select => match v {
            MetaValue::Str(s) => {
                let restricted = f.options is Some && f.options->Some_0.choices is Some;
                if restricted && !choices_contain(f.options->Some_0.choices->Some_0@, s@) {
                    Some(msg_bad_choice(f.name@, s@))
                } else {
                    None
                }
            },
            _ => Some(msg_expected_select(f.name@)),
        },
        FieldType::Relation => match v {
            MetaValue::Obj(pairs) => relation_error(f, pairs@),
            _ => Some(msg_expected_relation(f.name@)),
        },
    }
}

/// The required-field errors, one per required field whose key is absent or
/// null, in field order.
pub open spec fn required_errors(fields: Seq<FieldDefinitionDto>, m: Seq<MetaPair>) -> Seq<
    Seq<char>,
>
    decreases fields.len(),
{
    if fields.len() == 0 {
        Seq::empty()
    } else {
        let rest = required_errors(fields.drop_last(), m);
        let f = fields.last();
        if f.required && required_missing(f, m) {
            rest.push(msg_required(f.name@))
        } else {
            rest
        }
    }
}

/// The warnings one key/value pair produces: an unparseable key, or a field
/// id with no current field definition.
pub open spec fn key_warnings(fields: Seq<FieldDefinitionDto>, p: MetaPair) -> Seq<Seq<char>> {
    match parse_i32_spec(p.key@) {
        None => seq![msg_bad_key(p.key@)],
        Some(id) => if find_field(fields, id) is None {
            seq![msg_orphan(id as int)]
        } else {
            Seq::empty()
        },
    }
}

/// The errors one key/value pair produces: a typed validation failure on a
/// present, non-null value of a known field.
pub open spec fn key_errors(fields: Seq<FieldDefinitionDto>, p: MetaPair) -> Seq<Seq<char>> {
    match parse_i32_spec(p.key@) {
        None => Seq::empty(),
        Some(id) => match find_field(fields, id) {
            None => Seq::empty(),
            Some(f) => if p.value is Null {
                Seq::empty()
            } else {
                match validate_value_spec(f, p.value) {
                    Some(msg) => seq![msg],
                    None => Seq::empty(),
                }
            },
        },
    }
}

/// The per-key errors of a whole map, in map order.
pub open spec fn pairs_errors(fields: Seq<FieldDefinitionDto>, m: Seq<MetaPair>) -> Seq<Seq<char>>
    decreases m.len(),
{
    if m.len() == 0 {
        Seq::empty()
    } else {
        pairs_errors(fields, m.drop_last()) + key_errors(fields, m.last())
    }
}

/// The per-key warnings of a whole map, in map order.
pub open spec fn pairs_warnings(fields: Seq<FieldDefinitionDto>, m: Seq<MetaPair>) -> Seq<
    Seq<char>,
>
    decreases m.len(),
{
    if m.len() == 0 {
        Seq::empty()
    } else {
        pairs_warnings(fields, m.drop_last()) + key_warnings(fields, m.last())
    }
}

/// Every error full validation reports for a map: required-field errors
/// first, then per-key errors in map order.
pub open spec fn validate_errors(fields: Seq<FieldDefinitionDto>, m: Seq<MetaPair>) -> Seq<
    Seq<char>,
> {
    required_errors(fields, m) + pairs_errors(fields, m)
}

/// Every warning full validation reports for a map.
pub open spec fn validate_warnings(fields: Seq<FieldDefinitionDto>, m: Seq<MetaPair>) -> Seq<
    Seq<char>,
> {
    pairs_warnings(fields, m)
}

/// The set of field ids a vault's field definitions currently use.
pub open spec fn field_ids(fields: Seq<FieldDefinitionDto>) -> Set<int> {
    Set::new(|x: int| exists|k: int| 0 <= k < fields.len() && #[trigger] fields[k].id as int == x)
}

/// True when cleanup keeps a pair: its key parses as a field id that a
/// current field definition uses.
pub open spec fn keep_pair(p: MetaPair, ids: Set<int>) -> bool {
    match parse_i32_spec(p.key@) {
        Some(id) => ids.contains(id as int),
        None => false,
    }
}

/// The map after cleanup: exactly the pairs whose keys name current field
/// ids, in their original order, values untouched.
pub open spec fn clean_pairs(m: Seq<MetaPair>, ids: Set<int>) -> Seq<MetaPair>
    decreases m.len(),
{
    if m.len() == 0 {
        Seq::empty()
    } else {
        let rest = clean_pairs(m.drop_last(), ids);
        if keep_pair(m.last(), ids) {
            rest.push(m.last())
        } else {
            rest
        }
    }
}

/// Result of metadata validation: validity is false exactly when `errors` is
/// non-empty; warnings never affect validity.
pub struct ValidationResult {
    pub is_valid: bool,
    pub errors: Vec<String>,
    pub warnings: Vec<String>,
}

impl ValidationResult {
    /// A passing result with no errors and no warnings.
    pub fn success() -> (r: ValidationResult)
        ensures
            r.is_valid,
            r.errors@ =~= Seq::<String>::empty(),
            r.warnings@ =~= Seq::<String>::empty(),
    {
        ValidationResult { is_valid: true, errors: Vec::new(), warnings: Vec::new() }
    }

    /// A failing result holding one error.
    pub fn with_error(error: String) -> (r: ValidationResult)
        ensures
            !r.is_valid,
            r.errors@ =~= seq![error],
            r.warnings@ =~= Seq::<String>::empty(),
    {
        let mut errors = Vec::new();
        errors.push(error);
        ValidationResult { is_valid: false, errors, warnings: Vec::new() }
    }

    /// Records an error; the result is no longer valid.
    pub fn add_error(&mut self, error: String)
        ensures
            !final(self).is_valid,
            final(self).errors@ == old(self).errors@.push(error),
            final(self).warnings@ == old(self).warnings@,
    {
        self.is_valid = false;
        self.errors.push(error);
    }

    /// Records a warning; validity is unaffected.
    pub fn add_warning(&mut self, warning: String)
        ensures
            final(self).is_valid == old(self).is_valid,
            final(self).errors@ == old(self).errors@,
            final(self).warnings@ == old(self).warnings@.push(warning),
    {
        self.warnings.push(warning);
    }
}

proof fn lemma_lookup_value_from(m: Seq<MetaPair>, key: Seq<char>, i: int)
    requires
        0 <= i <= m.len(),
        forall|j: int| 0 <= j < i ==> m[j].key@ != key,
    ensures
        lookup_value(m, key) == lookup_value(m.subrange(i, m.len() as int), key),
    decreases i,
{
    if i > 0 {
        lemma_lookup_value_from(m.drop_first(), key, i - 1);
        assert(m.drop_first().subrange(i - 1, m.drop_first().len() as int) =~= m.subrange(
            i,
            m.len() as int,
        ));
    } else {
        assert(m.subrange(0, m.len() as int) =~= m);
    }
}

proof fn lemma_lookup_scalar_from(m: Seq<ScalarPair>, key: Seq<char>, i: int)
    requires
        0 <= i <= m.len(),
        forall|j: int| 0 <= j < i ==> m[j].key@ != key,
    ensures
        lookup_scalar(m, key) == lookup_scalar(m.subrange(i, m.len() as int), key),
    decreases i,
{
    if i > 0 {
        lemma_lookup_scalar_from(m.drop_first(), key, i - 1);
        assert(m.drop_first().subrange(i - 1, m.drop_first().len() as int) =~= m.subrange(
            i,
            m.len() as int,
        ));
    } else {
        assert(m.subrange(0, m.len() as int) =~= m);
    }
}

proof fn lemma_find_field_from(fields: Seq<FieldDefinitionDto>, id: i32, i: int)
    requires
        0 <= i <= fields.len(),
        forall|j: int| 0 <= j < i ==> fields[j].id != id,
    ensures
        find_field(fields, id) == find_field(fields.subrange(i, fields.len() as int), id),
    decreases i,
{
    if i > 0 {
        lemma_find_field_from(fields.drop_first(), id, i - 1);
        assert(fields.drop_first().subrange(i - 1, fields.drop_first().len() as int)
            =~= fields.subrange(i, fields.len() as int));
    } else {
        assert(fields.subrange(0, fields.len() as int) =~= fields);
    }
}

/// A field id is found exactly when some current field definition uses it.
pub proof fn lemma_find_field_ids(fields: Seq<FieldDefinitionDto>, id: i32)
    ensures
        (find_field(fields, id) is Some) == field_ids(fields).contains(id as int),
    decreases fields.len(),
{
    if fields.len() == 0 {
        assert(!field_ids(fields).contains(id as int));
    } else if fields[0].id == id {
        assert(fields[0].id as int == id as int);
        assert(field_ids(fields).contains(id as int));
    } else {
        lemma_find_field_ids(fields.drop_first(), id);
        let rest = fields.drop_first();
        if field_ids(rest).contains(id as int) {
            let k = choose|k: int| 0 <= k < rest.len() && #[trigger] rest[k].id as int == id as int;
            assert(fields[k + 1].id as int == id as int);
            assert(field_ids(fields).contains(id as int));
        }
        if field_ids(fields).contains(id as int) {
            let k = choose|k: int|
                0 <= k < fields.len() && #[trigger] fields[k].id as int == id as int;
            assert(k != 0);
            assert(rest[k - 1].id as int == id as int);
            assert(field_ids(rest).contains(id as int));
        }
    }
}

#[verifier::loop_isolation(false)]
fn lookup_value_ref<'a>(m: &'a Vec<MetaPair>, key: &str) -> (r: Option<&'a MetaValue>)
    ensures
        match lookup_value(m@, key@) {
            None => r is None,
            Some(v) => r matches Some(rv) && *rv == v,
        },
{
    let n = m.len();
    let mut i: usize = 0;
    while i < n
        invariant
            0 <= i <= n,
            forall|j: int| 0 <= j < i ==> m@[j].key@ != key@,
        decreases n - i,
    {
        if str_eq_str(m[i].key.as_str(), key) {
            proof {
                lemma_lookup_value_from(m@, key@, i as int);
                assert(m@.subrange(i as int, m@.len() as int)[0] == m@[i as int]);
            }
            return Some(&m[i].value);
        }
        i = i + 1;
    }
    proof {
        lemma_lookup_value_from(m@, key@, n as int);
    }
    None
}

#[verifier::loop_isolation(false)]
fn obj_int_exec(m: &Vec<ScalarPair>, key: &str) -> (r: Option<i64>)
    ensures
        r == obj_int(m@, key@),
{
    let n = m.len();
    let mut i: usize = 0;
    while i < n
        invariant
            0 <= i <= n,
            forall|j: int| 0 <= j < i ==> m@[j].key@ != key@,
        decreases n - i,
    {
        if str_eq_str(m[i].key.as_str(), key) {
            proof {
                lemma_lookup_scalar_from(m@, key@, i as int);
                assert(m@.subrange(i as int, m@.len() as int)[0] == m@[i as int]);
            }
            return match &m[i].value {
                MetaScalar::Int(v) => Some(*v),
                _ => None,
            };
        }
        i = i + 1;
    }
    proof {
        lemma_lookup_scalar_from(m@, key@, n as int);
    }
    None
}

#[verifier::loop_isolation(false)]
fn find_field_ref<'a>(fields: &'a Vec<FieldDefinitionDto>, id: i32) -> (r: Option<
    &'a FieldDefinitionDto,
>)
    ensures
        match find_field(fields@, id) {
            None => r is None,
            Some(f) => r matches Some(rf) && *rf == f,
        },
{
    let n = fields.len();
    let mut i: usize = 0;
    while i < n
        invariant
            0 <= i <= n,
            forall|j: int| 0 <= j < i ==> fields@[j].id != id,
        decreases n - i,
    {
        if fields[i].id == id {
            proof {
                lemma_find_field_from(fields@, id, i as int);
                assert(fields@.subrange(i as int, fields@.len() as int)[0] == fields@[i as int]);
            }
            return Some(&fields[i]);
        }
        i = i + 1;
    }
    proof {
        lemma_find_field_from(fields@, id, n as int);
    }
    None
}

fn field_message(name: &str, tail: &str) -> (r: String)
    ensures
        r@ == "Field '"@ + name@ + tail@,
{
    let mut m = String::from_str("Field '");
    m.append(name);
    m.append(tail);
    m
}

/// True when the outcome of a typed value check matches its model: `Ok` for
/// a pass, `Err` carrying exactly the modelled message for a failure.
pub open spec fn check_matches(r: Result<(), String>, s: Option<Seq<char>>) -> bool {
    match s {
        None => r is Ok,
        Some(msg) => r matches Err(e) && e@ == msg,
    }
}

/// Service for metadata validation and cleanup operations.
pub struct MetadataService;

impl MetadataService {
    fn validate_text(field: &FieldDefinitionDto, value: &MetaValue) -> (r: Result<(), String>)
        requires
            field.field_type == FieldType::Text,
        ensures
            check_matches(r, validate_value_spec(*field, *value)),
    {
        match value {
            MetaValue::Str(s) => {
                if let Some(o) = &field.options {
                    if let Some(limit) = o.max_length {
                        if limit < 0 || s.unicode_len() > limit as usize {
                            let mut m = field_message(
                                field.name.as_str(),
                                "': text exceeds maximum length of ",
                            );
                            let t = i32_to_string(limit);
                            m.append(t.as_str());
                            return Err(m);
                        }
                    }
                }
                Ok(())
            },
            _ => Err(field_message(field.name.as_str(), "': expected text value")),
        }
    }

    fn validate_number(field: &FieldDefinitionDto, value: &MetaValue) -> (r: Result<(), String>)
        requires
            field.field_type == FieldType::Number,
        ensures
            check_matches(r, validate_value_spec(*field, *value)),
    {
        match value {
            MetaValue::Int(n) => {
                if let Some(o) = &field.options {
                    if let Some(mn) = o.min {
                        if *n < mn {
                            let mut m = field_message(field.name.as_str(), "': value ");
                            let t = i64_to_string(*n);
                            m.append(t.as_str());
                            m.append(" is below minimum ");
                            let b = i64_to_string(mn);
                            m.append(b.as_str());
                            return Err(m);
                        }
                    }
                    if let Some(mx) = o.max {
                        if *n > mx {
                            let mut m = field_message(field.name.as_str(), "': value ");
                            let t = i64_to_string(*n);
                            m.append(t.as_str());
                            m.append(" exceeds maximum ");
                            let b = i64_to_string(mx);
                            m.append(b.as_str());
                            return Err(m);
                        }
                    }
                }
                Ok(())
            },
            MetaValue::OtherNum(_) => Ok(()),
            _ => Err(field_message(field.name.as_str(), "': expected number value")),
        }
    }

    fn validate_date(value: &MetaValue) -> (r: Result<(), String>)
        ensures
            match value {
                MetaValue::Str(s) => if chrono_ymd_ok(s@) {
                    r is Ok
                } else {
                    r matches Err(e) && e@ == msg_bad_date(s@)
                },
                _ => r matches Err(e) && e@ == msg_date_not_string(),
            },
    {
        match value {
            MetaValue::Str(s) => {
                if is_ymd_date(s.as_str()) {
                    Ok(())
                } else {
                    let mut m = String::from_str("Invalid date format '");
                    m.append(s.as_str());
                    m.append("': expected YYYY-MM-DD");
                    Err(m)
                }
            },
            _ => Err(String::from_str("Date field: expected string value")),
        }
    }

    fn validate_url(value: &MetaValue) -> (r: Result<(), String>)
        ensures
            match value {
                MetaValue::Str(s) => if starts_with_spec(s@, "http://"@) || starts_with_spec(
                    s@,
                    "https://"@,
                ) {
                    r is Ok
                } else {
                    r matches Err(e) && e@ == msg_bad_url(s@)
                },
                _ => r matches Err(e) && e@ == msg_url_not_string(),
            },
    {
        match value {
            MetaValue::Str(s) => {
                if str_starts_with(s.as_str(), "http://") || str_starts_with(
                    s.as_str(),
                    "https://",
                ) {
                    Ok(())
                } else {
                    let mut m = String::from_str("Invalid URL '");
                    m.append(s.as_str());
                    m.append("': must start with http:// or https://");
                    Err(m)
                }
            },
            _ => Err(String::from_str("URL field: expected string value")),
        }
    }

    fn validate_boolean(value: &MetaValue) -> (r: Result<(), String>)
        ensures
            if value is Bool {
                r is Ok
            } else {
                r matches Err(e) && e@ == msg_expected_bool()
            },
    {
        match value {
            MetaValue::Bool(_) => Ok(()),
            _ => Err(String::from_str("Boolean field: expected true or false")),
        }
    }

    #[verifier::loop_isolation(false)]
    fn validate_select(field: &FieldDefinitionDto, value: &MetaValue) -> (r: Result<(), String>)
        requires
            field.field_type == FieldType::Select,
        ensures
            check_matches(r, validate_value_spec(*field, *value)),
    {
        match value {
            MetaValue::Str(s) => {
                if let Some(o) = &field.options {
                    if let Some(cs) = &o.choices {
                        let n = cs.len();
                        let mut i: usize = 0;
                        while i < n
                            invariant
                                0 <= i <= n,
                                forall|j: int| 0 <= j < i ==> #[trigger] cs@[j]@ != s@,
                            decreases n - i,
                        {
                            if str_eq_str(cs[i].as_str(), s.as_str()) {
                                proof {
                                    assert(cs@[i as int]@ == s@);
                                }
                                return Ok(());
                            }
                            i = i + 1;
                        }
                        let mut m = field_message(field.name.as_str(), "': '");
                        m.append(s.as_str());
                        m.append("' is not a valid choice");
                        return Err(m);
                    }
                }
                Ok(())
            },
            _ => Err(field_message(field.name.as_str(), "': expected string value for select")),
        }
    }

    fn validate_relation(field: &FieldDefinitionDto, value: &MetaValue) -> (r: Result<(), String>)
        requires
            field.field_type == FieldType::Relation,
        ensures
            check_matches(r, validate_value_spec(*field, *value)),
    {
        match value {
            MetaValue::Obj(pairs) => {
                let eid = match obj_int_exec(pairs, "entry_id") {
                    Some(e) => e,
                    None => {
                        return Err(
                            field_message(field.name.as_str(), "': missing or invalid entry_id"),
                        );
                    },
                };
                let vid = match obj_int_exec(pairs, "vault_id") {
                    Some(v) => v,
                    None => {
                        return Err(
                            field_message(field.name.as_str(), "': missing or invalid vault_id"),
                        );
                    },
                };
                if let Some(o) = &field.options {
                    if let Some(target) = o.target_vault_id {
                        if vid != target as i64 {
                            let mut m = field_message(field.name.as_str(), "': vault_id ");
                            let t = i64_to_string(vid);
                            m.append(t.as_str());
                            m.append(" does not match target vault ");
                            let b = i32_to_string(target);
                            m.append(b.as_str());
                            return Err(m);
                        }
                    }
                }
                if eid <= 0 {
                    return Err(field_message(field.name.as_str(), "': entry_id must be positive"));
                }
                if vid <= 0 {
                    return Err(field_message(field.name.as_str(), "': vault_id must be positive"));
                }
                Ok(())
            },
            _ => Err(
                field_message(field.name.as_str(), "': expected object with entry_id and vault_id"),
            ),
        }
    }

    /// Checks one non-null value against its field's declared type and
    /// options.
    fn validate_field_value(field: &FieldDefinitionDto, value: &MetaValue) -> (r: Result<
        (),
        String,
    >)
        ensures
            check_matches(r, validate_value_spec(*field, *value)),
    {
        match field.field_type {
            FieldType::Text => Self::validate_text(field, value),
            FieldType::Number => Self::validate_number(field, value),
            FieldType::Date => Self::validate_date(value),
            FieldType::Url => Self::validate_url(value),
            FieldType::Boolean => Self::validate_boolean(value),
            FieldType::Select => Self::validate_select(field, value),
            FieldType::Relation => Self::validate_relation(field, value),
        }
    }

    /// Appends the required-field errors for a map to a result.
    #[verifier::loop_isolation(false)]
    fn append_required_errors(
        fields: &Vec<FieldDefinitionDto>,
        metadata: &Vec<MetaPair>,
        res: &mut ValidationResult,
    )
        requires
            old(res).is_valid == (old(res).errors@.len() == 0),
        ensures
            final(res).errors.deep_view() == old(res).errors.deep_view() + required_errors(
                fields@,
                metadata@,
            ),
            final(res).warnings@ == old(res).warnings@,
            final(res).is_valid == (final(res).errors@.len() == 0),
    {
        let ghost base = old(res).errors.deep_view();
        let n = fields.len();
        let mut k: usize = 0;
        proof {
            assert(res.errors.deep_view() =~= base + required_errors(
                fields@.subrange(0, 0),
                metadata@,
            ));
        }
        while k < n
            invariant
                0 <= k <= n,
                res.errors.deep_view() == base + required_errors(
                    fields@.subrange(0, k as int),
                    metadata@,
                ),
                res.warnings@ == old(res).warnings@,
                res.is_valid == (res.errors@.len() == 0),
            decreases n - k,
        {
            let ghost pre = fields@.subrange(0, k as int);
            let ghost cur = fields@.subrange(0, k + 1);
            proof {
                assert(cur.drop_last() =~= pre);
                assert(cur.last() == fields@[k as int]);
            }
            if fields[k].required {
                let key = i32_to_string(fields[k].id);
                let missing = match lookup_value_ref(metadata, key.as_str()) {
                    None => true,
                    Some(v) => match v {
                        MetaValue::Null => true,
                        _ => false,
                    },
                };
                if missing {
                    let msg = field_message(fields[k].name.as_str(), "' is required");
                    let ghost before = res.errors.deep_view();
                    res.add_error(msg);
                    proof {
                        assert(res.errors.deep_view() =~= before.push(
                            msg_required(fields@[k as int].name@),
                        ));
                        assert(before.push(msg_required(fields@[k as int].name@)) =~= base
                            + required_errors(cur, metadata@));
                    }
                }
            }
            k = k + 1;
        }
        proof {
            assert(fields@.subrange(0, n as int) =~= fields@);
        }
    }

    /// Full validation of an already parsed metadata map against a vault's
    /// field definitions, in order: required-field errors first, then each
    /// key in map order, producing warnings for unparseable keys and orphan
    /// field ids and errors for typed value failures.
    #[verifier::loop_isolation(false)]
    pub fn validate_parsed(fields: &Vec<FieldDefinitionDto>, metadata: &Vec<MetaPair>) -> (r:
        ValidationResult)
        ensures
            r.errors.deep_view() == validate_errors(fields@, metadata@),
            r.warnings.deep_view() == validate_warnings(fields@, metadata@),
            r.is_valid == (validate_errors(fields@, metadata@).len() == 0),
    {
        let mut res = ValidationResult::success();
        proof {
            assert(res.errors.deep_view() =~= Seq::<Seq<char>>::empty());
            assert(res.warnings.deep_view() =~= Seq::<Seq<char>>::empty());
        }
        Self::append_required_errors(fields, metadata, &mut res);
        let ghost req = required_errors(fields@, metadata@);
        proof {
            assert(res.errors.deep_view() =~= req);
            assert(res.warnings.deep_view() =~= pairs_warnings(fields@, metadata@.subrange(0, 0)));
            assert(res.errors.deep_view() =~= req + pairs_errors(fields@, metadata@.subrange(0, 0)));
        }
        let n = metadata.len();
        let mut i: usize = 0;
        while i < n
            invariant
                0 <= i <= n,
                res.errors.deep_view() == req + pairs_errors(
                    fields@,
                    metadata@.subrange(0, i as int),
                ),
                res.warnings.deep_view() == pairs_warnings(
                    fields@,
                    metadata@.subrange(0, i as int),
                ),
                res.is_valid == (res.errors@.len() == 0),
            decreases n - i,
        {
            let ghost pre = metadata@.subrange(0, i as int);
            let ghost cur = metadata@.subrange(0, i + 1);
            proof {
                assert(cur.drop_last() =~= pre);
                assert(cur.last() == metadata@[i as int]);
            }
            let p = &metadata[i];
            match parse_i32_str(p.key.as_str()) {
                None => {
                    let mut msg = String::from_str("Invalid metadata key '");
                    msg.append(p.key.as_str());
                    msg.append("': not a valid field ID");
                    let ghost before = res.warnings.deep_view();
                    res.add_warning(msg);
                    proof {
                        assert(res.warnings.deep_view() =~= before.push(
                            msg_bad_key(metadata@[i as int].key@),
                        ));
                        assert(res.warnings.deep_view() =~= pairs_warnings(fields@, cur));
                        assert(res.errors.deep_view() =~= req + pairs_errors(fields@, cur));
                    }
                },
                Some(id) => {
                    match find_field_ref(fields, id) {
                        None => {
                            let mut msg = String::from_str("Orphan data detected: field ID ");
                            let t = i32_to_string(id);
                            msg.append(t.as_str());
                            msg.append(" no longer exists");
                            let ghost before = res.warnings.deep_view();
                            res.add_warning(msg);
                            proof {
                                assert(res.warnings.deep_view() =~= before.push(
                                    msg_orphan(id as int),
                                ));
                                assert(res.warnings.deep_view() =~= pairs_warnings(fields@, cur));
                                assert(res.errors.deep_view() =~= req + pairs_errors(
                                    fields@,
                                    cur,
                                ));
                            }
                        },
                        Some(f) => {
                            let mut failed: Option<String> = None;
                            match &p.value {
                                MetaValue::Null => {},
                                _ => {
                                    if let Err(e) = Self::validate_field_value(f, &p.value) {
                                        failed = Some(e);
                                    }
                                },
                            }
                            match failed {
                                Some(e) => {
                                    let ghost before = res.errors.deep_view();
                                    let ghost ee = e@;
                                    res.add_error(e);
                                    proof {
                                        assert(res.errors.deep_view() =~= before.push(ee));
                                        assert(res.errors.deep_view() =~= req + pairs_errors(
                                            fields@,
                                            cur,
                                        ));
                                        assert(res.warnings.deep_view() =~= pairs_warnings(
                                            fields@,
                                            cur,
                                        ));
                                    }
                                },
                                None => {
                                    proof {
                                        assert(res.errors.deep_view() =~= req + pairs_errors(
                                            fields@,
                                            cur,
                                        ));
                                        assert(res.warnings.deep_view() =~= pairs_warnings(
                                            fields@,
                                            cur,
                                        ));
                                    }
                                },
                            }
                        },
                    }
                },
            }
            i = i + 1;
        }
        proof {
            assert(metadata@.subrange(0, n as int) =~= metadata@);
        }
        res
    }
}

/// The pairs of a map keyed by parseable field ids, in order, with their
/// keys parsed.
pub open spec fn id_pairs(m: Seq<MetaPair>) -> Seq<(i32, MetaValue)>
    decreases m.len(),
{
    if m.len() == 0 {
        Seq::empty()
    } else {
        let rest = id_pairs(m.drop_last());
        match parse_i32_spec(m.last().key@) {
            Some(id) => rest.push((id, m.last().value)),
            None => rest,
        }
    }
}

impl MetadataService {
    /// Validates a metadata blob against a vault's field definitions. A blob
    /// that is not a JSON object yields a single fatal error and no further
    /// checks; an absent blob is validated as an empty map.
    pub fn validate_metadata(
        fields: &Vec<FieldDefinitionDto>,
        metadata_json: Option<&str>,
    ) -> (r: ValidationResult)
        ensures
            ({
                match metadata_json {
                    None => {
                        &&& r.errors.deep_view() == validate_errors(
                            fields@,
                            Seq::<MetaPair>::empty(),
                        )
                        &&& r.warnings.deep_view() == validate_warnings(
                            fields@,
                            Seq::<MetaPair>::empty(),
                        )
                        &&& r.is_valid == (validate_errors(
                            fields@,
                            Seq::<MetaPair>::empty(),
                        ).len() == 0)
                    },
                    Some(s) => match meta_parse(s@) {
                        None => {
                            &&& !r.is_valid
                            &&& r.errors.deep_view().len() == 1
                            &&& starts_with_spec(
                                r.errors.deep_view()[0],
                                "Invalid metadata JSON: "@,
                            )
                            &&& r.warnings@.len() == 0
                        },
                        Some(m) => {
                            &&& r.errors.deep_view() == validate_errors(fields@, m)
                            &&& r.warnings.deep_view() == validate_warnings(fields@, m)
                            &&& r.is_valid == (validate_errors(fields@, m).len() == 0)
                        },
                    },
                }
            }),
    {
        match metadata_json {
            None => {
                let empty: Vec<MetaPair> = Vec::new();
                let r = Self::validate_parsed(fields, &empty);
                proof {
                    assert(empty@ =~= Seq::<MetaPair>::empty());
                }
                r
            },
            Some(s) => match parse_metadata_text(s) {
                Ok(m) => Self::validate_parsed(fields, &m),
                Err(e) => {
                    let mut msg = String::from_str("Invalid metadata JSON: ");
                    msg.append(e.as_str());
                    let ghost whole = msg@;
                    let r = ValidationResult::with_error(msg);
                    proof {
                        assert(r.errors.deep_view().len() == 1);
                        assert(r.errors.deep_view()[0] == whole);
                        assert(whole.subrange(0, "Invalid metadata JSON: "@.len() as int)
                            =~= "Invalid metadata JSON: "@);
                    }
                    r
                },
            },
        }
    }

    /// Validates only the required-field rule, for fast-path creation
    /// checks. A blob that fails to parse is treated as an empty map.
    pub fn validate_required_fields(
        fields: &Vec<FieldDefinitionDto>,
        metadata_json: Option<&str>,
    ) -> (r: ValidationResult)
        ensures
            ({
                let m = match metadata_json {
                    None => Seq::<MetaPair>::empty(),
                    Some(s) => match meta_parse(s@) {
                        None => Seq::<MetaPair>::empty(),
                        Some(mm) => mm,
                    },
                };
                &&& r.errors.deep_view() == required_errors(fields@, m)
                &&& r.warnings@.len() == 0
                &&& r.is_valid == (required_errors(fields@, m).len() == 0)
            }),
    {
        let pairs: Vec<MetaPair> = match metadata_json {
            None => Vec::new(),
            Some(s) => match parse_metadata_text(s) {
                Ok(m) => m,
                Err(_) => Vec::new(),
            },
        };
        let mut res = ValidationResult::success();
        proof {
            assert(res.errors.deep_view() =~= Seq::<Seq<char>>::empty());
        }
        Self::append_required_errors(fields, &pairs, &mut res);
        proof {
            assert(Seq::<Seq<char>>::empty() + required_errors(fields@, pairs@) =~= required_errors(
                fields@,
                pairs@,
            ));
        }
        res
    }

    /// Drops from an already parsed map every pair whose key does not name a
    /// current field id, keeping the rest in order with their values
    /// untouched.
    #[verifier::loop_isolation(false)]
    pub fn cleanup_map(fields: &Vec<FieldDefinitionDto>, metadata: Vec<MetaPair>) -> (r: Vec<
        MetaPair,
    >)
        ensures
            r@ == clean_pairs(metadata@, field_ids(fields@)),
    {
        let ghost orig = metadata@;
        let ghost ids = field_ids(fields@);
        let mut input = metadata;
        let mut out: Vec<MetaPair> = Vec::new();
        proof {
            assert(input@ =~= orig.subrange(orig.len() - input@.len(), orig.len() as int));
            assert(out@ =~= clean_pairs(orig.subrange(0, orig.len() - input@.len()), ids));
        }
        while input.len() > 0
            invariant
                input@.len() <= orig.len(),
                input@ == orig.subrange(orig.len() - input@.len(), orig.len() as int),
                out@ == clean_pairs(orig.subrange(0, orig.len() - input@.len()), ids),
            decreases input.len(),
        {
            let ghost done = orig.len() - input@.len();
            let ghost pre = orig.subrange(0, done);
            let ghost cur = orig.subrange(0, done + 1);
            let p = input.remove(0);
            proof {
                assert(p == orig[done]);
                assert(input@ =~= orig.subrange(orig.len() - input@.len(), orig.len() as int));
                assert(cur.drop_last() =~= pre);
                assert(cur.last() == orig[done]);
            }
            let keep = match parse_i32_str(p.key.as_str()) {
                Some(id) => {
                    proof {
                        lemma_find_field_ids(fields@, id);
                    }
                    find_field_ref(fields, id).is_some()
                },
                None => false,
            };
            if keep {
                out.push(p);
            }
        }
        proof {
            assert(orig.subrange(0, orig.len() as int) =~= orig);
        }
        out
    }

    /// Cleans orphan keys out of a metadata blob: the keys that still name a
    /// current field id are kept with their values and the rest are dropped.
    /// A blob that fails to parse is returned unchanged; cleanup never fails
    /// the caller.
    pub fn cleanup_orphan_data(fields: &Vec<FieldDefinitionDto>, metadata_json: &str) -> (r:
        String)
        ensures
            match meta_parse(metadata_json@) {
                None => r@ == metadata_json@,
                Some(m) => r@ == meta_ser(clean_pairs(m, field_ids(fields@))),
            },
    {
        match parse_metadata_text(metadata_json) {
            Err(_) => metadata_json.to_owned(),
            Ok(m) => metadata_to_text(Self::cleanup_map(fields, m)),
        }
    }

    /// Parses a metadata blob into pairs of field id and value, skipping
    /// keys that do not parse as field ids. An absent or unparseable blob
    /// yields no pairs.
    #[verifier::loop_isolation(false)]
    pub fn parse_metadata(metadata_json: Option<&str>) -> (r: Vec<(i32, MetaValue)>)
        ensures
            ({
                let m = match metadata_json {
                    None => Seq::<MetaPair>::empty(),
                    Some(s) => match meta_parse(s@) {
                        None => Seq::<MetaPair>::empty(),
                        Some(mm) => mm,
                    },
                };
                r@ == id_pairs(m)
            }),
    {
        let pairs: Vec<MetaPair> = match metadata_json {
            None => Vec::new(),
            Some(s) => match parse_metadata_text(s) {
                Ok(m) => m,
                Err(_) => Vec::new(),
            },
        };
        let ghost orig = pairs@;
        let mut input = pairs;
        let mut out: Vec<(i32, MetaValue)> = Vec::new();
        proof {
            assert(input@ =~= orig.subrange(orig.len() - input@.len(), orig.len() as int));
            assert(out@ =~= id_pairs(orig.subrange(0, orig.len() - input@.len())));
        }
        while input.len() > 0
            invariant
                input@.len() <= orig.len(),
                input@ == orig.subrange(orig.len() - input@.len(), orig.len() as int),
                out@ == id_pairs(orig.subrange(0, orig.len() - input@.len())),
            decreases input.len(),
        {
            let ghost done = orig.len() - input@.len();
            let ghost pre = orig.subrange(0, done);
            let ghost cur = orig.subrange(0, done + 1);
            let p = input.remove(0);
            proof {
                assert(p == orig[done]);
                assert(input@ =~= orig.subrange(orig.len() - input@.len(), orig.len() as int));
                assert(cur.drop_last() =~= pre);
                assert(cur.last() == orig[done]);
            }
            match parse_i32_str(p.key.as_str()) {
                Some(id) => {
                    out.push((id, p.value));
                },
                None => {},
            }
        }
        proof {
            assert(orig.subrange(0, orig.len() as int) =~= orig);
        }
        out
    }

    /// Renders pairs of field id and value as a metadata blob, keyed by the
    /// decimal rendering of each id.
    #[verifier::loop_isolation(false)]
    pub fn build_metadata_json(values: Vec<(i32, MetaValue)>) -> (r: String)
        ensures
            exists|ps: Seq<MetaPair>|
                {
                    &&& ps.len() == values@.len()
                    &&& forall|i: int|
                        0 <= i < ps.len() ==> (#[trigger] ps[i]).key@ == i64_dec_spec(
                            values@[i].0 as int,
                        ) && ps[i].value == values@[i].1
                    &&& r@ == meta_ser(ps)
                },
    {
        let ghost orig = values@;
        let mut input = values;
        let mut pairs: Vec<MetaPair> = Vec::new();
        while input.len() > 0
            invariant
                input@.len() <= orig.len(),
                input@ == orig.subrange(orig.len() - input@.len(), orig.len() as int),
                pairs@.len() == orig.len() - input@.len(),
                forall|i: int|
                    0 <= i < pairs@.len() ==> (#[trigger] pairs@[i]).key@ == i64_dec_spec(
                        orig[i].0 as int,
                    ) && pairs@[i].value == orig[i].1,
            decreases input.len(),
        {
            let ghost done = orig.len() - input@.len();
            let v = input.remove(0);
            proof {
                assert(v == orig[done]);
                assert(input@ =~= orig.subrange(orig.len() - input@.len(), orig.len() as int));
            }
            let key = i32_to_string(v.0);
            pairs.push(MetaPair { key, value: v.1 });
        }
        let ghost ps = pairs@;
        let r = metadata_to_text(pairs);
        proof {
            assert(ps.len() == orig.len());
        }
        r
    }
}

proof fn lemma_u64_dec_digits(n: nat)
    ensures
        all_digits(u64_dec_spec(n)),
        digits_val(u64_dec_spec(n)) == n,
        u64_dec_spec(n).len() >= 1,
    decreases n,
{
    if n < 10 {
        let s = u64_dec_spec(n);
        assert(s.len() == 1);
        assert(s.last() == dec_digit(n as int));
        assert(s.drop_last().len() == 0);
        assert(digits_val(s) == digits_val(s.drop_last()) * 10 + digit_val(s.last()));
        assert(digit_val(dec_digit(n as int)) == n);
    } else {
        lemma_u64_dec_digits(n / 10);
        let s = u64_dec_spec(n);
        assert(s.drop_last() =~= u64_dec_spec(n / 10));
        assert(s.last() == dec_digit((n % 10) as int));
        assert(digit_val(dec_digit((n % 10) as int)) == n % 10);
        assert(digits_val(s) == digits_val(s.drop_last()) * 10 + digit_val(s.last()));
    }
}

/// Parsing the decimal rendering of an id gives back the id: metadata keys
/// written by the library always name their field again.
pub proof fn lemma_parse_of_dec(v: int)
    requires
        i32::MIN <= v <= i32::MAX,
    ensures
        parse_i32_spec(i64_dec_spec(v)) == Some(v as i32),
{
    if v >= 0 {
        let s = i64_dec_spec(v);
        lemma_u64_dec_digits(v as nat);
        assert(is_dec_digit(s[0]));
        assert(s[0] as u32 != 43 && s[0] as u32 != 45);
        assert(s[0] != '+' && s[0] != '-');
    } else {
        let s = i64_dec_spec(v);
        let body = u64_dec_spec((-v) as nat);
        lemma_u64_dec_digits((-v) as nat);
        assert(s[0] == '-');
        assert(s.subrange(1, s.len() as int) =~= body);
    }
}

proof fn lemma_seq_push_contains(s: Seq<Seq<char>>, y: Seq<char>, x: Seq<char>)
    requires
        s.contains(x),
    ensures
        s.push(y).contains(x),
{
    let i = choose|i: int| 0 <= i < s.len() && s[i] == x;
    assert(s.push(y)[i] == x);
}

proof fn lemma_seq_concat_contains(a: Seq<Seq<char>>, b: Seq<Seq<char>>, x: Seq<char>)
    requires
        a.contains(x) || b.contains(x),
    ensures
        (a + b).contains(x),
{
    if a.contains(x) {
        let i = choose|i: int| 0 <= i < a.len() && a[i] == x;
        assert((a + b)[i] == x);
    } else {
        let i = choose|i: int| 0 <= i < b.len() && b[i] == x;
        assert((a + b)[a.len() + i] == x);
    }
}

proof fn lemma_required_errors_contains(
    fields: Seq<FieldDefinitionDto>,
    m: Seq<MetaPair>,
    k: int,
)
    requires
        0 <= k < fields.len(),
        fields[k].required,
        required_missing(fields[k], m),
    ensures
        required_errors(fields, m).contains(msg_required(fields[k].name@)),
    decreases fields.len(),
{
    let rest = required_errors(fields.drop_last(), m);
    if k == fields.len() - 1 {
        assert(fields.last() == fields[k]);
        assert(required_errors(fields, m)[rest.len() as int] == msg_required(fields[k].name@));
    } else {
        lemma_required_errors_contains(fields.drop_last(), m, k);
        assert(fields.drop_last()[k] == fields[k]);
        if fields.last().required && required_missing(fields.last(), m) {
            lemma_seq_push_contains(rest, msg_required(fields.last().name@), msg_required(
                fields[k].name@,
            ));
        }
    }
}

/// Law: a metadata map that leaves a required field's key absent or null
/// fails validation, and the errors include one naming that field. Together
/// with `validate_parsed`'s contract this makes `is_valid` false.
pub proof fn lemma_required_field_error(fields: Seq<FieldDefinitionDto>, m: Seq<MetaPair>, k: int)
    requires
        0 <= k < fields.len(),
        fields[k].required,
        required_missing(fields[k], m),
    ensures
        validate_errors(fields, m).contains(msg_required(fields[k].name@)),
        validate_errors(fields, m).len() > 0,
{
    lemma_required_errors_contains(fields, m, k);
    lemma_seq_concat_contains(required_errors(fields, m), pairs_errors(fields, m), msg_required(
        fields[k].name@,
    ));
    let i = choose|i: int|
        0 <= i < validate_errors(fields, m).len() && validate_errors(fields, m)[i] == msg_required(
            fields[k].name@,
        );
}

proof fn lemma_pairs_warnings_contains(
    fields: Seq<FieldDefinitionDto>,
    m: Seq<MetaPair>,
    j: int,
    w: Seq<char>,
)
    requires
        0 <= j < m.len(),
        key_warnings(fields, m[j]).contains(w),
    ensures
        pairs_warnings(fields, m).contains(w),
    decreases m.len(),
{
    if j == m.len() - 1 {
        lemma_seq_concat_contains(pairs_warnings(fields, m.drop_last()), key_warnings(
            fields,
            m.last(),
        ), w);
    } else {
        assert(m.drop_last()[j] == m[j]);
        lemma_pairs_warnings_contains(fields, m.drop_last(), j, w);
        lemma_seq_concat_contains(pairs_warnings(fields, m.drop_last()), key_warnings(
            fields,
            m.last(),
        ), w);
    }
}

proof fn lemma_lookup_remove(m: Seq<MetaPair>, key: Seq<char>, j: int)
    requires
        0 <= j < m.len(),
        m[j].key@ != key,
    ensures
        lookup_value(m.remove(j), key) == lookup_value(m, key),
    decreases m.len(),
{
    if j == 0 {
        assert(m.remove(0) =~= m.drop_first());
    } else {
        assert(m.remove(j)[0] == m[0]);
        if m[0].key@ == key {
        } else {
            assert(m.drop_first()[j - 1].key@ != key);
            lemma_lookup_remove(m.drop_first(), key, j - 1);
            assert(m.remove(j).drop_first() =~= m.drop_first().remove(j - 1));
        }
    }
}

proof fn lemma_required_errors_remove(fields: Seq<FieldDefinitionDto>, m: Seq<MetaPair>, j: int)
    requires
        0 <= j < m.len(),
        parse_i32_spec(m[j].key@) is None,
    ensures
        required_errors(fields, m.remove(j)) == required_errors(fields, m),
    decreases fields.len(),
{
    if fields.len() > 0 {
        lemma_required_errors_remove(fields.drop_last(), m, j);
        let f = fields.last();
        lemma_parse_of_dec(f.id as int);
        assert(m[j].key@ != field_key(f));
        lemma_lookup_remove(m, field_key(f), j);
    }
}

proof fn lemma_pairs_errors_remove(fields: Seq<FieldDefinitionDto>, m: Seq<MetaPair>, j: int)
    requires
        0 <= j < m.len(),
        key_errors(fields, m[j]).len() == 0,
    ensures
        pairs_errors(fields, m.remove(j)) == pairs_errors(fields, m),
    decreases m.len(),
{
    if j == m.len() - 1 {
        assert(m.remove(j) =~= m.drop_last());
        assert(pairs_errors(fields, m.drop_last()) + key_errors(fields, m.last()) =~= pairs_errors(
            fields,
            m.drop_last(),
        ));
    } else {
        assert(m.drop_last()[j] == m[j]);
        lemma_pairs_errors_remove(fields, m.drop_last(), j);
        assert(m.remove(j).drop_last() =~= m.drop_last().remove(j));
        assert(m.remove(j).last() == m.last());
    }
}

/// Law: a metadata key that does not parse as a field id produces a warning
/// and is otherwise skipped: the validation errors are exactly those of the
/// map with that pair removed, so such a key never affects validity on its
/// own.
pub proof fn lemma_bad_key_skipped(fields: Seq<FieldDefinitionDto>, m: Seq<MetaPair>, j: int)
    requires
        0 <= j < m.len(),
        parse_i32_spec(m[j].key@) is None,
    ensures
        validate_warnings(fields, m).contains(msg_bad_key(m[j].key@)),
        validate_errors(fields, m) == validate_errors(fields, m.remove(j)),
{
    assert(key_warnings(fields, m[j])[0] == msg_bad_key(m[j].key@));
    lemma_pairs_warnings_contains(fields, m, j, msg_bad_key(m[j].key@));
    lemma_required_errors_remove(fields, m, j);
    lemma_pairs_errors_remove(fields, m, j);
}

/// Law: validation warns about every key whose field id no longer names a
/// field definition of the vault.
pub proof fn lemma_orphan_warning(fields: Seq<FieldDefinitionDto>, m: Seq<MetaPair>, j: int)
    requires
        0 <= j < m.len(),
        parse_i32_spec(m[j].key@) is Some,
        find_field(fields, parse_i32_spec(m[j].key@)->Some_0) is None,
    ensures
        validate_warnings(fields, m).contains(
            msg_orphan(parse_i32_spec(m[j].key@)->Some_0 as int),
        ),
{
    let id = parse_i32_spec(m[j].key@)->Some_0;
    assert(key_warnings(fields, m[j])[0] == msg_orphan(id as int));
    lemma_pairs_warnings_contains(fields, m, j, msg_orphan(id as int));
}

/// Law: cleanup keeps exactly the pairs whose keys name current field ids.
/// Every pair of the result names a current field id, and every pair of the
/// input that names one is kept, value untouched.
pub proof fn lemma_cleanup_exact(m: Seq<MetaPair>, ids: Set<int>)
    ensures
        forall|i: int|
            0 <= i < clean_pairs(m, ids).len() ==> keep_pair(
                #[trigger] clean_pairs(m, ids)[i],
                ids,
            ),
        forall|j: int|
            0 <= j < m.len() && keep_pair(#[trigger] m[j], ids) ==> clean_pairs(m, ids).contains(
                m[j],
            ),
    decreases m.len(),
{
    if m.len() > 0 {
        lemma_cleanup_exact(m.drop_last(), ids);
        let rest = clean_pairs(m.drop_last(), ids);
        assert forall|j: int| 0 <= j < m.len() && keep_pair(#[trigger] m[j], ids) implies clean_pairs(
            m,
            ids,
        ).contains(m[j]) by {
            if j == m.len() - 1 {
                assert(clean_pairs(m, ids)[rest.len() as int] == m[j]);
            } else {
                assert(m.drop_last()[j] == m[j]);
                assert(rest.contains(m[j]));
                let i = choose|i: int| 0 <= i < rest.len() && rest[i] == m[j];
                if keep_pair(m.last(), ids) {
                    assert(clean_pairs(m, ids)[i] == m[j]);
                }
            }
        }
    }
}

/// Law: cleanup is idempotent. Cleaning an already clean map changes
/// nothing, so applying cleanup twice equals applying it once.
pub proof fn lemma_cleanup_idempotent(m: Seq<MetaPair>, ids: Set<int>)
    ensures
        clean_pairs(clean_pairs(m, ids), ids) == clean_pairs(m, ids),
    decreases m.len(),
{
    if m.len() > 0 {
        lemma_cleanup_idempotent(m.drop_last(), ids);
        let rest = clean_pairs(m.drop_last(), ids);
        if keep_pair(m.last(), ids) {
            assert(rest.push(m.last()).drop_last() =~= rest);
            assert(clean_pairs(rest.push(m.last()), ids) == clean_pairs(rest, ids).push(m.last()));
        }
    }
}

} // verus!
