//! The `artist` command's arguments: how a name argument is read and how a name is shown.
use vstd::prelude::*;
use vstd::string::*;

use crate::language::{is_known_code, language_name, Language};
use crate::library::artists::model::{kind_of_word, kind_title, NameKind};
use crate::text::{
    lemma_first_index_of, join_with, lemma_split_on_pieces, chars_of, first_index_of, lemma_first_index_of_at, lemma_split_step, push_str, range_equals,
    split_on, string_of_range,
};

verus! {

/// A name of an artist with what is known of it.
#[derive(Debug, Clone)]
pub struct NameRecord {
    pub name: String,
    /// Language of the name, by its ISO 639-1 code.
    pub locale: Option<Language>,
    /// What the name is to the artist.
    pub name_type: Option<NameKind>,
}

/// The content of a `NameRecord`.
pub struct NameRecordView {
    pub name: Seq<char>,
    pub locale: Option<Seq<char>>,
    pub name_type: Option<NameKind>,
}

impl View for NameRecord {
    type V = NameRecordView;

    open spec fn view(&self) -> NameRecordView {
        NameRecordView {
            name: self.name@,
            locale: match self.locale {
                Some(language) => Some(language@),
                None => None,
            },
            name_type: self.name_type,
        }
    }
}

/// A further name of an artist, beside its primary name.
#[derive(Debug, Clone)]
pub struct NameVariantRecord {
    pub record: NameRecord,
}

impl NameRecord {
    pub fn new(name: String, locale: Option<Language>, name_type: Option<NameKind>) -> (r: NameRecord)
        ensures
            r.name == name,
            r.locale == locale,
            r.name_type == name_type,
    {
        NameRecord { name, locale, name_type }
    }

    /// The record as it is shown, e.g. `John Doe (Legal, English)`.
    pub fn to_string(&self) -> (r: String)
        ensures
            r@ == formatted_record(self@),
    {
        format_record(self)
    }
}

impl NameVariantRecord {
    pub fn new(record: NameRecord) -> (r: NameVariantRecord)
        ensures
            r.record == record,
    {
        NameVariantRecord { record }
    }

    /// The variant as it is shown: the same as its record.
    pub fn to_string(&self) -> (r: String)
        ensures
            r@ == formatted_record(self.record@),
    {
        format_record(&self.record)
    }
}

/// How a record is shown: the name, then the kind's title and the language's name, where
/// present, in brackets and separated by a comma.
pub open spec fn formatted_record(r: NameRecordView) -> Seq<char> {
    match (r.name_type, r.locale) {
        (None, None) => r.name,
        (Some(kind), None) => r.name + " ("@ + kind_title(kind) + ")"@,
        (None, Some(code)) => r.name + " ("@ + language_name(code) + ")"@,
        (Some(kind), Some(code)) => r.name + " ("@ + kind_title(kind) + ", "@ + language_name(code)
            + ")"@,
    }
}

/// Shows a record: the name, followed by ` (kind, language)` with those parts present.
pub fn format_record(record: &NameRecord) -> (r: String)
    ensures
        r@ == formatted_record(record@),
{
    let mut output = record.name.clone();
    match (&record.name_type, &record.locale) {
        (None, None) => {},
        (Some(kind), None) => {
            push_str(&mut output, " (");
            let title = kind.as_title();
            push_str(&mut output, title.as_str());
            push_str(&mut output, ")");
        },
        (None, Some(language)) => {
            push_str(&mut output, " (");
            let name = language.to_string();
            push_str(&mut output, name.as_str());
            push_str(&mut output, ")");
        },
        (Some(kind), Some(language)) => {
            push_str(&mut output, " (");
            let title = kind.as_title();
            push_str(&mut output, title.as_str());
            push_str(&mut output, ", ");
            let name = language.to_string();
            push_str(&mut output, name.as_str());
            push_str(&mut output, ")");
        },
    }
    output
}

/// The key of a `key=value` field: what stands before its first `=`.
pub open spec fn field_key(field: Seq<char>) -> Option<Seq<char>> {
    match first_index_of(field, '=') {
        Some(k) => Some(field.take(k)),
        None => None,
    }
}

/// The value of a `key=value` field: what follows its first `=`.
pub open spec fn field_value(field: Seq<char>) -> Seq<char> {
    match first_index_of(field, '=') {
        Some(k) => field.skip(k + 1),
        None => Seq::empty(),
    }
}

/// A field that gives the name's language: key `lang` (the documented key) or `locale`.
pub open spec fn is_language_field(field: Seq<char>) -> bool {
    field_key(field) == Some("lang"@) || field_key(field) == Some("locale"@)
}

/// A field that gives the name's kind: key `type`.
pub open spec fn is_type_field(field: Seq<char>) -> bool {
    field_key(field) == Some("type"@)
}

/// The kind that the fields give: that of the last `type` field, which is none where its
/// value names no kind.
pub open spec fn last_kind(fields: Seq<Seq<char>>) -> Option<NameKind>
    decreases fields.len(),
{
    if fields.len() == 0 {
        None
    } else if is_type_field(fields.last()) {
        kind_of_word(field_value(fields.last()))
    } else {
        last_kind(fields.drop_last())
    }
}

/// The language code that the fields give: the value of the last language field.
pub open spec fn last_language(fields: Seq<Seq<char>>) -> Option<Seq<char>>
    decreases fields.len(),
{
    if fields.len() == 0 {
        None
    } else if is_language_field(fields.last()) {
        Some(field_value(fields.last()))
    } else {
        last_language(fields.drop_last())
    }
}

/// Every language field names a known ISO 639-1 code.
pub open spec fn languages_known(fields: Seq<Seq<char>>) -> bool {
    forall|i: int|
        0 <= i < fields.len() && is_language_field(#[trigger] fields[i]) ==> is_known_code(
            field_value(fields[i]),
        )
}

/// The message given for a language field whose value is not a known code.
pub open spec fn language_error() -> Seq<char> {
    "Ensure the value provided is ISO-639-1 compliant."@
}

/// What a name argument `name;key=value;...` stands for: the text before the first `;` is
/// the name; of the `;`-separated fields after it, those with an `=` are `key=value`
/// pairs; `type` gives the kind and `lang` or `locale` the language, the last one of each
/// counting; other fields are ignored. `None` where a language field names no known code.
pub open spec fn name_argument(s: Seq<char>) -> Option<NameRecordView> {
    let fields = split_on(s, ';');
    let meta = fields.drop_first();
    if languages_known(meta) {
        Some(NameRecordView { name: fields[0], locale: last_language(meta), name_type: last_kind(meta) })
    } else {
        None
    }
}

/// The key and value of the field `v[start..j]`, where `e` is the position of its first `=`
/// (or `j` where it has none).
proof fn lemma_field_parts(v: Seq<char>, start: int, e: int, j: int)
    requires
        0 <= start <= e <= j <= v.len(),
        forall|k: int| start <= k < e ==> v[k] != '=',
        e < j ==> v[e] == '=',
    ensures
        e < j ==> field_key(v.subrange(start, j)) == Some(v.subrange(start, e)),
        e < j ==> field_value(v.subrange(start, j)) == v.subrange(e + 1, j),
        e == j ==> field_key(v.subrange(start, j)) is None,
{
    let f = v.subrange(start, j);
    assert forall|m: int| 0 <= m < e - start implies f[m] != '=' by {
        assert(f[m] == v[start + m]);
    }
    if e < j {
        assert(f[e - start] == v[e]);
    }
    lemma_first_index_of_at(f, '=', e - start);
    if e < j {
        assert(f.take(e - start) =~= v.subrange(start, e));
        assert(f.skip(e - start + 1) =~= v.subrange(e + 1, j));
    }
}

/// Whether no field from index `from` on is a language field.
pub open spec fn no_language_field_after(fields: Seq<Seq<char>>, from: int) -> bool {
    forall|j: int| from < j < fields.len() ==> !is_language_field(#[trigger] fields[j])
}

/// Whether no field from index `from` on is a type field.
pub open spec fn no_type_field_after(fields: Seq<Seq<char>>, from: int) -> bool {
    forall|j: int| from < j < fields.len() ==> !is_type_field(#[trigger] fields[j])
}

/// The language the fields give is the value of the last language field, whatever fields
/// (of type or any other key) follow it, and there is none exactly when no field is a
/// language field.
pub proof fn lemma_language_is_last_language_field(fields: Seq<Seq<char>>)
    ensures
        last_language(fields) is None <==> no_language_field_after(fields, -1),
        forall|i: int|
            0 <= i < fields.len() && is_language_field(#[trigger] fields[i])
                && no_language_field_after(fields, i) ==> last_language(fields) == Some(
                field_value(fields[i]),
            ),
        forall|f: Seq<char>|
            !is_language_field(f) ==> #[trigger] last_language(fields.push(f)) == last_language(
                fields,
            ),
    decreases fields.len(),
{
    assert forall|f: Seq<char>| !is_language_field(f) implies #[trigger] last_language(
        fields.push(f),
    ) == last_language(fields) by {
        assert(fields.push(f).drop_last() =~= fields);
    }
    if fields.len() > 0 {
        let init = fields.drop_last();
        lemma_language_is_last_language_field(init);
        assert forall|j: int| 0 <= j < init.len() implies init[j] == fields[j] by {}
        if is_language_field(fields.last()) {
            assert forall|i: int|
                0 <= i < fields.len() && is_language_field(#[trigger] fields[i])
                    && no_language_field_after(fields, i) implies last_language(fields) == Some(
                field_value(fields[i]),
            ) by {
                if i < fields.len() - 1 {
                    assert(!is_language_field(fields[fields.len() - 1]));
                }
            }
        } else {
            assert forall|i: int|
                0 <= i < fields.len() && is_language_field(#[trigger] fields[i])
                    && no_language_field_after(fields, i) implies last_language(fields) == Some(
                field_value(fields[i]),
            ) by {
                assert(i < fields.len() - 1);
                assert(init[i] == fields[i]);
                assert forall|j: int| i < j < init.len() implies !is_language_field(#[trigger] init[j]) by {
                    assert(init[j] == fields[j]);
                }
            }
            if no_language_field_after(fields, -1) {
                assert forall|j: int| -1 < j < init.len() implies !is_language_field(#[trigger] init[j]) by {
                    assert(init[j] == fields[j]);
                }
            }
            if no_language_field_after(init, -1) {
                assert forall|j: int| -1 < j < fields.len() implies !is_language_field(#[trigger] fields[j]) by {
                    if j < init.len() {
                        assert(init[j] == fields[j]);
                    }
                }
            }
        }
    }
}

/// The kind the fields give is the kind named by the value of the last type field (none
/// where that value names no kind), whatever fields (of language or any other key) follow
/// it, and there is none where no field is a type field.
pub proof fn lemma_kind_is_last_type_field(fields: Seq<Seq<char>>)
    ensures
        no_type_field_after(fields, -1) ==> last_kind(fields) is None,
        forall|i: int|
            0 <= i < fields.len() && is_type_field(#[trigger] fields[i]) && no_type_field_after(
                fields,
                i,
            ) ==> last_kind(fields) == kind_of_word(field_value(fields[i])),
        forall|f: Seq<char>|
            !is_type_field(f) ==> #[trigger] last_kind(fields.push(f)) == last_kind(fields),
    decreases fields.len(),
{
    assert forall|f: Seq<char>| !is_type_field(f) implies #[trigger] last_kind(fields.push(f))
        == last_kind(fields) by {
        assert(fields.push(f).drop_last() =~= fields);
    }
    if fields.len() > 0 {
        let init = fields.drop_last();
        lemma_kind_is_last_type_field(init);
        if is_type_field(fields.last()) {
            assert forall|i: int|
                0 <= i < fields.len() && is_type_field(#[trigger] fields[i])
                    && no_type_field_after(fields, i) implies last_kind(fields) == kind_of_word(
                field_value(fields[i]),
            ) by {
                if i < fields.len() - 1 {
                    assert(!is_type_field(fields[fields.len() - 1]));
                }
            }
        } else {
            assert forall|i: int|
                0 <= i < fields.len() && is_type_field(#[trigger] fields[i])
                    && no_type_field_after(fields, i) implies last_kind(fields) == kind_of_word(
                field_value(fields[i]),
            ) by {
                assert(i < fields.len() - 1);
                assert(init[i] == fields[i]);
                assert forall|j: int| i < j < init.len() implies !is_type_field(#[trigger] init[j]) by {
                    assert(init[j] == fields[j]);
                }
            }
            if no_type_field_after(fields, -1) {
                assert forall|j: int| -1 < j < init.len() implies !is_type_field(#[trigger] init[j]) by {
                    assert(init[j] == fields[j]);
                }
            }
        }
    }
}

/// A parsed name argument takes its language from its last language field, and its kind
/// from its last type field, whatever fields follow them.
pub proof fn lemma_name_argument_fields(s: Seq<char>, i: int)
    requires
        name_argument(s) is Some,
        0 <= i < split_on(s, ';').drop_first().len(),
    ensures
        is_language_field(split_on(s, ';').drop_first()[i]) && no_language_field_after(
            split_on(s, ';').drop_first(),
            i,
        ) ==> name_argument(s).unwrap().locale == Some(field_value(split_on(s, ';').drop_first()[i])),
        is_type_field(split_on(s, ';').drop_first()[i]) && no_type_field_after(
            split_on(s, ';').drop_first(),
            i,
        ) ==> name_argument(s).unwrap().name_type == kind_of_word(
            field_value(split_on(s, ';').drop_first()[i]),
        ),
{
    lemma_language_is_last_language_field(split_on(s, ';').drop_first());
    lemma_kind_is_last_type_field(split_on(s, ';').drop_first());
}

/// A field with a key is its key, `=`, and its value, and the key holds no `=`; a field
/// without a key holds no `=` at all.
pub proof fn lemma_field_key_value(field: Seq<char>)
    ensures
        field_key(field) matches Some(key) ==> field == key + seq!['='] + field_value(field)
            && forall|k: int| 0 <= k < key.len() ==> #[trigger] key[k] != '=',
        field_key(field) is None ==> forall|k: int| 0 <= k < field.len() ==> #[trigger] field[k] != '=',
{
    lemma_first_index_of(field, '=');
    if let Some(i) = first_index_of(field, '=') {
        assert(field =~= field.take(i) + seq!['='] + field.skip(i + 1));
    }
}

/// The name of a parsed name argument is the text before its first `;`: it holds no `;`,
/// and it is the whole argument or is followed in it by a `;`.
pub proof fn lemma_name_argument_name(s: Seq<char>)
    requires
        name_argument(s) is Some,
    ensures
        forall|k: int|
            0 <= k < name_argument(s).unwrap().name.len() ==> #[trigger] name_argument(
                s,
            ).unwrap().name[k] != ';',
        name_argument(s).unwrap().name == s || (name_argument(s).unwrap().name.len() < s.len()
            && s.take(name_argument(s).unwrap().name.len() as int) == name_argument(s).unwrap().name
            && s[name_argument(s).unwrap().name.len() as int] == ';'),
{
    lemma_split_on_pieces(s, ';');
    let parts = split_on(s, ';');
    let name = parts[0];
    assert(name_argument(s).unwrap().name == name);
    if parts.len() > 1 {
        assert(join_with(parts, ';') == name + seq![';'] + join_with(parts.drop_first(), ';'));
        assert(s.take(name.len() as int) =~= name);
        assert(s[name.len() as int] == ';');
    }
    assert forall|k: int| 0 <= k < name.len() implies #[trigger] name[k] != ';' by {
        assert(parts[0][k] != ';');
    }
}

/// How a record is shown, part by part: it starts with the name; with neither kind nor
/// language it is the name alone; with a kind, ` (` and the kind's title follow the name;
/// with a language it ends with the language's name and `)`, whatever the kind; with a kind
/// and no language it ends with the kind's title and `)`.
pub proof fn lemma_formatted_record_parts(r: NameRecordView)
    ensures
        formatted_record(r).len() >= r.name.len(),
        formatted_record(r).subrange(0, r.name.len() as int) == r.name,
        r.name_type is None && r.locale is None ==> formatted_record(r) == r.name,
        r.name_type matches Some(k) ==> formatted_record(r).subrange(
            r.name.len() as int,
            (r.name.len() + 2 + kind_title(k).len()) as int,
        ) == " ("@ + kind_title(k),
        r.locale matches Some(code) ==> formatted_record(r).skip(
            formatted_record(r).len() - language_name(code).len() - 1,
        ) == language_name(code) + ")"@,
        r.locale matches Some(code) ==> formatted_record(r).subrange(
            formatted_record(r).len() - language_name(code).len() - 3,
            formatted_record(r).len() - language_name(code).len() - 1,
        ) == (if r.name_type is Some { ", "@ } else { " ("@ }),
        r.locale is None ==> (r.name_type matches Some(k) ==> formatted_record(r).skip(
            formatted_record(r).len() - kind_title(k).len() - 1,
        ) == kind_title(k) + ")"@),
{
    reveal_strlit(" (");
    reveal_strlit(")");
    reveal_strlit(", ");
    let t = formatted_record(r);
    match (r.name_type, r.locale) {
        (None, None) => {
            assert(t.subrange(0, r.name.len() as int) =~= r.name);
        },
        (Some(k), None) => {
            assert(t.subrange(0, r.name.len() as int) =~= r.name);
            assert(t.subrange(r.name.len() as int, (r.name.len() + 2 + kind_title(k).len()) as int) =~= " ("@ + kind_title(k));
            assert(t.skip(t.len() - kind_title(k).len() - 1) =~= kind_title(k) + ")"@);
        },
        (None, Some(code)) => {
            assert(t.subrange(0, r.name.len() as int) =~= r.name);
            assert(t.skip(t.len() - language_name(code).len() - 1) =~= language_name(code) + ")"@);
            assert(t.subrange(t.len() - language_name(code).len() - 3, t.len() - language_name(code).len() - 1) =~= " ("@);
        },
        (Some(k), Some(code)) => {
            assert(t.subrange(0, r.name.len() as int) =~= r.name);
            assert(t.subrange(r.name.len() as int, (r.name.len() + 2 + kind_title(k).len()) as int) =~= " ("@ + kind_title(k));
            assert(t.skip(t.len() - language_name(code).len() - 1) =~= language_name(code) + ")"@);
            assert(t.subrange(t.len() - language_name(code).len() - 3, t.len() - language_name(code).len() - 1) =~= ", "@);
        },
    }
}

/// The fields after the first.
spec fn tail_fields(fields: Seq<Seq<char>>) -> Seq<Seq<char>> {
    if fields.len() == 0 {
        fields
    } else {
        fields.drop_first()
    }
}

/// Reads a name argument of the form `name;key=value;...` (see `name_argument`).
pub fn validate_name(s: &str) -> (r: Result<NameRecord, String>)
    ensures
        match name_argument(s@) {
            Some(record) => r matches Ok(rec) && rec@ == record,
            None => r matches Err(e) && e@ == language_error(),
        },
{
    let v = chars_of(s);
    let n: usize = v.len();
    let mut start: usize = 0;
    let mut finished = false;
    let mut name = String::new();
    let mut kind: Option<NameKind> = None;
    let mut lang: Option<Language> = None;
    let ghost mut done: Seq<Seq<char>> = Seq::empty();
    assert(v@.skip(0) =~= v@);
    while !finished
        invariant
            n == v@.len(),
            v@ == s@,
            start <= n,
            !finished ==> split_on(v@, ';') == done + split_on(v@.skip(start as int), ';'),
            finished ==> split_on(v@, ';') == done,
            !finished && start == 0 ==> done.len() == 0,
            start > 0 || finished ==> done.len() > 0,
            done.len() > 0 ==> name@ == done[0],
            kind == last_kind(tail_fields(done)),
            (match lang {
                Some(language) => Some(language@),
                None => None,
            }) == last_language(tail_fields(done)),
            languages_known(tail_fields(done)),
        decreases
            if finished { 0 } else { n + 1 - start },
    {
        let mut j: usize = start;
        while j < n && v[j] != ';'
            invariant
                start <= j <= n,
                n == v@.len(),
                forall|k: int| start <= k < j ==> v@[k] != ';',
            decreases n - j,
        {
            j = j + 1;
        }
        proof {
            lemma_split_step(v@, ';', start as int, j as int);
        }
        let ghost field = v@.subrange(start as int, j as int);
        let ghost meta_before = tail_fields(done);
        if start == 0 {
            name = string_of_range(&v, start, j);
        } else {
            let mut e: usize = start;
            while e < j && v[e] != '='
                invariant
                    start <= e <= j <= n,
                    n == v@.len(),
                    forall|k: int| start <= k < e ==> v@[k] != '=',
                decreases j - e,
            {
                e = e + 1;
            }
            proof {
                lemma_field_parts(v@, start as int, e as int, j as int);
                reveal_strlit("lang");
                reveal_strlit("locale");
                reveal_strlit("type");
                assert("lang"@[0] != "type"@[0]);
                assert("locale"@.len() != "type"@.len());
            }
            if e < j {
                if range_equals(&v, start, e, "locale") || range_equals(&v, start, e, "lang") {
                    let value = string_of_range(&v, e + 1, j);
                    match Language::from_639_1(value.as_str()) {
                        Some(language) => {
                            lang = Some(language);
                        },
                        None => {
                            proof {
                                let fields = split_on(v@, ';');
                                let i: int = done.len() - 1;
                                assert(fields[done.len() as int] == field);
                                assert(fields.drop_first()[i] == field);
                            }
                            return Err(String::from_str("Ensure the value provided is ISO-639-1 compliant."));
                        },
                    }
                } else if range_equals(&v, start, e, "type") {
                    let value = string_of_range(&v, e + 1, j);
                    kind = match NameKind::from_str(value.as_str()) {
                        Ok(k) => Some(k),
                        Err(_) => None,
                    };
                }
            }
        }
        proof {
            if start > 0 {
                assert(tail_fields(done.push(field)) =~= meta_before.push(field));
                assert(meta_before.push(field).drop_last() =~= meta_before);
            } else {
                assert(tail_fields(done.push(field)) =~= Seq::<Seq<char>>::empty());
            }
            done = done.push(field);
        }
        if j == n {
            finished = true;
            proof {
                assert(split_on(v@, ';') =~= done);
            }
        } else {
            start = j + 1;
            proof {
                assert(split_on(v@, ';') =~= done + split_on(v@.skip(start as int), ';'));
            }
        }
    }
    Ok(NameRecord { name, locale: lang, name_type: kind })
}

/// Reads a variant argument; the same format as a name argument.
pub fn validate_name_variant(s: &str) -> (r: Result<NameVariantRecord, String>)
    ensures
        match name_argument(s@) {
            Some(record) => r matches Ok(variant) && variant.record@ == record,
            None => r matches Err(e) && e@ == language_error(),
        },
{
    let record = validate_name(s)?;
    Ok(NameVariantRecord { record })
}

/// The arguments of `artist add`: the primary name and any further names.
#[derive(Debug, Clone)]
pub struct AddArgs {
    pub name: NameRecord,
    pub variant: Vec<NameVariantRecord>,
}

/// The variants listed one per line, each line indented by two spaces.
pub open spec fn variant_listing(variants: Seq<NameVariantRecord>) -> Seq<char>
    decreases variants.len(),
{
    if variants.len() == 0 {
        Seq::empty()
    } else {
        variant_listing(variants.drop_last()) + "\n  "@ + formatted_record(variants.last().record@)
    }
}

/// What is shown before an artist is added: a line with the name, and a block listing the
/// variants where there are any.
pub fn add_command_preview(args: &AddArgs) -> (lines: Vec<String>)
    ensures
        lines@.len() == if args.variant@.len() == 0 { 1int } else { 2int },
        lines@[0]@ == "Artist: "@ + formatted_record(args.name@),
        args.variant@.len() > 0 ==> lines@[1]@ == "Variants:"@ + variant_listing(args.variant@),
{
    let mut lines: Vec<String> = Vec::new();
    let mut artist = String::from_str("Artist: ");
    let shown = format_record(&args.name);
    push_str(&mut artist, shown.as_str());
    lines.push(artist);
    if args.variant.len() > 0 {
        let mut listing = String::from_str("Variants:");
        let mut i: usize = 0;
        while i < args.variant.len()
            invariant
                i <= args.variant@.len(),
                listing@ == "Variants:"@ + variant_listing(args.variant@.take(i as int)),
            decreases args.variant@.len() - i,
        {
            push_str(&mut listing, "\n  ");
            let shown = format_record(&args.variant[i].record);
            push_str(&mut listing, shown.as_str());
            assert(args.variant@.take(i + 1).drop_last() =~= args.variant@.take(i as int));
            i = i + 1;
        }
        assert(args.variant@.take(i as int) =~= args.variant@);
        lines.push(listing);
    }
    lines
}

/// What follows the question whether to add the entry: `None` to go ahead (the answer was
/// yes), else the message to show (`Cancelled` for no, `Error or aborted` where no answer
/// was given).
pub fn confirm_outcome(answer: Option<bool>) -> (message: Option<String>)
    ensures
        answer == Some(true) <==> message is None,
        answer == Some(false) ==> (message matches Some(m) && m@ == "Cancelled"@),
        answer is None ==> (message matches Some(m) && m@ == "Error or aborted"@),
{
    match answer {
        Some(true) => None,
        Some(false) => Some(String::from_str("Cancelled")),
        None => Some(String::from_str("Error or aborted")),
    }
}

} // verus!
