//! What the artist repository decides: how names are normalised and compared, which rows
//! an artist entry writes, and in what order.
use unicode_normalization::UnicodeNormalization;
use vstd::prelude::*;
use vstd::string::*;

use crate::cli::commands::artist::{NameRecord, NameRecordView, NameVariantRecord};
use crate::db::types::datetime_stamp::{spec_rfc3339_in_utc, DateTimeStamp, TimestampError};
use crate::library::artists::model::{kind_of_word, kind_word, ArtistName, NameKind, NameKindParseError};
use crate::text::{chars_of, decimal, push_char, push_decimal, push_str};

verus! {

/// The Unicode NFKC form of `s`, as `unicode_normalization` computes it.
pub uninterp spec fn spec_nfkc(s: Seq<char>) -> Seq<char>;

/// Runs `UnicodeNormalization::nfkc` over `s` and collects the characters. Only the tie of
/// the result to `spec_nfkc` of the argument is claimed; the normal form itself is not stated.
#[verifier::external_body]
fn nfkc(s: &str) -> (r: String)
    ensures
        r@ == spec_nfkc(s@),
{
    s.nfkc().collect()
}

/// The lower-case mapping of `c`, as `char::to_lowercase` yields it.
pub uninterp spec fn spec_lowercase(c: char) -> Seq<char>;

/// Collects `char::to_lowercase(c)`. The std documentation says it yields one or more
/// characters; the mapping itself is not stated.
#[verifier::external_body]
fn lowercase(c: char) -> (r: Vec<char>)
    ensures
        r@ == spec_lowercase(c),
        r@.len() >= 1,
{
    c.to_lowercase().collect()
}

/// Whether `c` is alphabetic or numeric, as `char::is_alphanumeric` says.
pub uninterp spec fn spec_is_alphanumeric(c: char) -> bool;

/// Calls `char::is_alphanumeric`; which characters qualify is not stated.
#[verifier::external_body]
fn is_alphanumeric(c: char) -> (b: bool)
    ensures
        b == spec_is_alphanumeric(c),
{
    c.is_alphanumeric()
}

/// Every character replaced by its lower-case mapping.
pub open spec fn lowercased(s: Seq<char>) -> Seq<char>
    decreases s.len(),
{
    if s.len() == 0 {
        Seq::empty()
    } else {
        lowercased(s.drop_last()) + spec_lowercase(s.last())
    }
}

/// The alphanumeric characters of `s`, in order.
pub open spec fn alphanumerics(s: Seq<char>) -> Seq<char>
    decreases s.len(),
{
    if s.len() == 0 {
        Seq::empty()
    } else if spec_is_alphanumeric(s.last()) {
        alphanumerics(s.drop_last()).push(s.last())
    } else {
        alphanumerics(s.drop_last())
    }
}

/// The form in which two names are compared: NFKC, then lower case.
pub open spec fn comparable(s: Seq<char>) -> Seq<char> {
    lowercased(spec_nfkc(s))
}

/// The normalised name stored beside a name: its comparable form without the characters
/// that are not alphanumeric.
pub open spec fn normalized(s: Seq<char>) -> Seq<char> {
    alphanumerics(comparable(s))
}

/// Names that match have the same normalised form, so the stored normalised name of a row
/// agrees with every name that matches it.
pub proof fn lemma_matching_names_normalize_alike(a: Seq<char>, b: Seq<char>)
    requires
        comparable(a) == comparable(b),
    ensures
        normalized(a) == normalized(b),
{
}

/// The comparable form of `s`.
fn comparable_chars(s: &str) -> (r: Vec<char>)
    ensures
        r@ == comparable(s@),
{
    let folded = nfkc(s);
    let chars = chars_of(folded.as_str());
    let mut out: Vec<char> = Vec::new();
    let mut i: usize = 0;
    while i < chars.len()
        invariant
            chars@ == spec_nfkc(s@),
            i <= chars@.len(),
            out@ == lowercased(chars@.take(i as int)),
        decreases chars@.len() - i,
    {
        let lower = lowercase(chars[i]);
        let mut k: usize = 0;
        while k < lower.len()
            invariant
                k <= lower@.len(),
                i < chars@.len(),
                out@ == lowercased(chars@.take(i as int)) + lower@.take(k as int),
            decreases lower@.len() - k,
        {
            out.push(lower[k]);
            assert(lower@.take(k + 1) =~= lower@.take(k as int).push(lower@[k as int]));
            k = k + 1;
        }
        assert(chars@.take(i + 1).drop_last() =~= chars@.take(i as int));
        assert(lower@.take(k as int) =~= lower@);
        i = i + 1;
    }
    assert(chars@.take(i as int) =~= chars@);
    out
}

/// The normalised form of a name: NFKC, lower case, alphanumeric characters only.
pub fn normalize_name(s: &str) -> (r: String)
    ensures
        r@ == normalized(s@),
{
    let chars = comparable_chars(s);
    let mut out = String::new();
    let mut i: usize = 0;
    while i < chars.len()
        invariant
            chars@ == comparable(s@),
            i <= chars@.len(),
            out@ == alphanumerics(chars@.take(i as int)),
        decreases chars@.len() - i,
    {
        let c = chars[i];
        if is_alphanumeric(c) {
            push_char(&mut out, c);
        }
        assert(chars@.take(i + 1).drop_last() =~= chars@.take(i as int));
        i = i + 1;
    }
    assert(chars@.take(i as int) =~= chars@);
    out
}

/// Whether two names are the same once both are in NFKC and lower case.
pub fn names_match(a: &str, b: &str) -> (r: bool)
    ensures
        r == (comparable(a@) == comparable(b@)),
{
    let x = comparable_chars(a);
    let y = comparable_chars(b);
    if x.len() != y.len() {
        return false;
    }
    let mut i: usize = 0;
    while i < x.len()
        invariant
            x@ == comparable(a@),
            y@ == comparable(b@),
            x@.len() == y@.len(),
            i <= x@.len(),
            forall|k: int| 0 <= k < i ==> x@[k] == y@[k],
        decreases x@.len() - i,
    {
        if x[i] != y[i] {
            proof {
                if x@ == y@ {
                    assert(x@[i as int] == y@[i as int]);
                }
            }
            return false;
        }
        i = i + 1;
    }
    assert(x@ =~= y@);
    true
}

/// The rows whose name matches `name`, in their order.
pub open spec fn matching_rows(rows: Seq<ArtistName>, name: Seq<char>) -> Seq<ArtistName>
    decreases rows.len(),
{
    if rows.len() == 0 {
        Seq::empty()
    } else if comparable(rows[0].name@) == comparable(name) {
        seq![rows[0]] + matching_rows(rows.drop_first(), name)
    } else {
        matching_rows(rows.drop_first(), name)
    }
}

/// Of the stored primary names, those that match `name` (see `names_match`), in order.
pub fn find_artist_by_primary_name(primary_names: Vec<ArtistName>, name: &str) -> (r: Vec<ArtistName>)
    ensures
        r@ == matching_rows(primary_names@, name@),
{
    let ghost all = primary_names@;
    let mut rows = primary_names;
    let mut out: Vec<ArtistName> = Vec::new();
    while rows.len() > 0
        invariant
            out@ + matching_rows(rows@, name@) == matching_rows(all, name@),
        decreases rows@.len(),
    {
        let ghost before = rows@;
        let row = rows.remove(0);
        assert(rows@ =~= before.drop_first());
        if names_match(row.name.as_str(), name) {
            assert(out@.push(row) + matching_rows(rows@, name@) =~= out@ + (seq![row] + matching_rows(rows@, name@)));
            out.push(row);
        }
    }
    assert(out@ + matching_rows(rows@, name@) =~= out@);
    out
}

/// Filtering a sequence with a first element in front: the element is kept or dropped on
/// its own, and the rest is filtered as before.
proof fn lemma_filter_prepend<A>(x: A, t: Seq<A>, pred: spec_fn(A) -> bool)
    ensures
        (seq![x] + t).filter(pred) == (if pred(x) { seq![x] } else { Seq::empty() }) + t.filter(pred),
    decreases t.len(),
{
    reveal(Seq::filter);
    let xt = seq![x] + t;
    if t.len() == 0 {
        assert(xt =~= seq![x]);
        assert(xt.drop_last() =~= Seq::<A>::empty());
        assert(xt.filter(pred) =~= (if pred(x) { seq![x] } else { Seq::empty() }) + t.filter(pred));
    } else {
        lemma_filter_prepend(x, t.drop_last(), pred);
        assert(xt.drop_last() =~= seq![x] + t.drop_last());
        assert(xt.last() == t.last());
        assert(xt.filter(pred) =~= (if pred(x) { seq![x] } else { Seq::empty() }) + t.filter(pred));
    }
}

/// The primary-name search keeps exactly the rows whose name as entered (the `name`
/// column, not the stored normalised form) is the query once both are in NFKC and lower
/// case, in their stored order; in particular a row whose name is the query itself is
/// always found.
pub proof fn lemma_primary_name_search(rows: Seq<ArtistName>, name: Seq<char>)
    ensures
        matching_rows(rows, name) == rows.filter(
            |row: ArtistName| comparable(row.name@) == comparable(name),
        ),
        forall|i: int|
            0 <= i < rows.len() && (#[trigger] rows[i]).name@ == name ==> matching_rows(
                rows,
                name,
            ).contains(rows[i]),
    decreases rows.len(),
{
    let pred = |row: ArtistName| comparable(row.name@) == comparable(name);
    if rows.len() == 0 {
        reveal(Seq::filter);
    } else {
        lemma_primary_name_search(rows.drop_first(), name);
        assert(rows =~= seq![rows[0]] + rows.drop_first());
        lemma_filter_prepend(rows[0], rows.drop_first(), pred);
    }
    assert forall|i: int| 0 <= i < rows.len() && (#[trigger] rows[i]).name@ == name implies matching_rows(
        rows,
        name,
    ).contains(rows[i]) by {
        rows.lemma_filter_contains(pred, i);
    }
}

/// Lower-casing works character by character: the lower-case form of a concatenation is
/// the concatenation of the lower-case forms, and a single character becomes its own
/// lower-case mapping.
pub proof fn lemma_lowercased_by_character(a: Seq<char>, b: Seq<char>, c: char)
    ensures
        lowercased(a + b) == lowercased(a) + lowercased(b),
        lowercased(seq![c]) == spec_lowercase(c),
    decreases b.len(),
{
    assert(seq![c].drop_last() =~= Seq::<char>::empty());
    assert(seq![c].last() == c);
    assert(lowercased(seq![c]) == lowercased(Seq::<char>::empty()) + spec_lowercase(c));
    assert(lowercased(seq![c]) =~= spec_lowercase(c));
    if b.len() == 0 {
        assert(a + b =~= a);
        assert(lowercased(a) + lowercased(b) =~= lowercased(a));
    } else {
        lemma_lowercased_by_character(a, b.drop_last(), c);
        assert((a + b).drop_last() =~= a + b.drop_last());
        assert((a + b).last() == b.last());
        assert(lowercased(a + b) =~= lowercased(a) + lowercased(b));
    }
}

/// Normalising keeps exactly the alphanumeric characters of a name's NFKC, lower-case form,
/// every one of them and in order.
pub proof fn lemma_normalized_keeps_alphanumerics(s: Seq<char>)
    ensures
        normalized(s) == comparable(s).filter(|c: char| spec_is_alphanumeric(c)),
        forall|i: int|
            0 <= i < comparable(s).len() && spec_is_alphanumeric(#[trigger] comparable(s)[i])
                ==> normalized(s).contains(comparable(s)[i]),
{
    lemma_alphanumerics_filter(comparable(s));
    assert forall|i: int|
        0 <= i < comparable(s).len() && spec_is_alphanumeric(#[trigger] comparable(s)[i])
            implies normalized(s).contains(comparable(s)[i]) by {
        comparable(s).lemma_filter_contains(|c: char| spec_is_alphanumeric(c), i);
    }
}

proof fn lemma_alphanumerics_filter(t: Seq<char>)
    ensures
        alphanumerics(t) == t.filter(|c: char| spec_is_alphanumeric(c)),
    decreases t.len(),
{
    reveal(Seq::filter);
    if t.len() > 0 {
        lemma_alphanumerics_filter(t.drop_last());
    }
}

/// The row written for a name carries the name as entered, its normalised form, the word
/// of its kind where it has one, and its language code where it has one, each independently
/// of the others, under the given artist id.
pub proof fn lemma_name_row_columns(artist_id: i64, record: NameRecordView)
    ensures
        name_row_of(artist_id, record).artist_id == artist_id,
        name_row_of(artist_id, record).name == record.name,
        name_row_of(artist_id, record).normalized_name == normalized(record.name),
        name_row_of(artist_id, record).locale == record.locale,
        record.name_type is None ==> name_row_of(artist_id, record).kind is None,
        record.name_type matches Some(k) ==> name_row_of(artist_id, record).kind == Some(
            kind_word(k),
        ),
        forall|other: NameRecordView|
            other.locale == record.locale ==> #[trigger] name_row_of(artist_id, other).locale
                == name_row_of(artist_id, record).locale,
{
}

/// Reads the `kind` column of a name row: no value is no kind; a value must be a kind's word.
pub fn kind_from_column(value: Option<String>) -> (r: Result<Option<NameKind>, NameKindParseError>)
    ensures
        match value {
            None => r == Ok::<Option<NameKind>, NameKindParseError>(None),
            Some(word) => match kind_of_word(word@) {
                Some(k) => r == Ok::<Option<NameKind>, NameKindParseError>(Some(k)),
                None => r == Err::<Option<NameKind>, NameKindParseError>(
                    NameKindParseError::VariantNotFound,
                ),
            },
        },
{
    match value {
        None => Ok(None),
        Some(word) => match NameKind::from_str(word.as_str()) {
            Ok(k) => Ok(Some(k)),
            Err(e) => Err(e),
        },
    }
}

/// Why a stored name row could not be read.
#[derive(Debug, Clone, Copy, PartialEq, Eq, Structural)]
pub enum RowError {
    /// The `kind` column holds a word that names no kind.
    Kind(NameKindParseError),
    /// A timestamp column does not hold an RFC 3339 date and time.
    Timestamp(TimestampError),
}

/// Whether a timestamp column value can be read.
pub open spec fn readable_stamp(value: Option<&str>) -> bool {
    value matches Some(text) && spec_rfc3339_in_utc(text@) is Some
}

/// The name row made of the columns of an `artist_names` row, in the table's column order;
/// `kind` is the text of the kind column, and the timestamp columns are given by their
/// text (`None` where they hold none). The kind is read first, then the timestamps.
pub fn artist_name_from_columns(
    id: i64,
    artist_id: i64,
    name: String,
    normalized_name: String,
    kind: Option<String>,
    locale: Option<String>,
    created_at: Option<&str>,
    updated_at: Option<&str>,
) -> (r: Result<ArtistName, RowError>)
    ensures
        (kind matches Some(word) && kind_of_word(word@) is None) ==> r == Err::<ArtistName, RowError>(
            RowError::Kind(NameKindParseError::VariantNotFound),
        ),
        !(kind matches Some(word) && kind_of_word(word@) is None) && !(readable_stamp(created_at)
            && readable_stamp(updated_at)) ==> r == Err::<ArtistName, RowError>(
            RowError::Timestamp(TimestampError::InvalidType),
        ),
        r matches Ok(row) ==> {
            &&& row.id == id
            &&& row.artist_id == artist_id
            &&& row.name == name
            &&& row.normalized_name == normalized_name
            &&& row.kind == match kind {
                Some(word) => kind_of_word(word@),
                None => None,
            }
            &&& row.locale == locale
            &&& Some(row.created_at@) == spec_rfc3339_in_utc(created_at.unwrap()@)
            &&& Some(row.updated_at@) == spec_rfc3339_in_utc(updated_at.unwrap()@)
        },
        r is Ok <==> !(kind matches Some(word) && kind_of_word(word@) is None) && readable_stamp(
            created_at,
        ) && readable_stamp(updated_at),
{
    let kind = match kind_from_column(kind) {
        Ok(k) => k,
        Err(e) => return Err(RowError::Kind(e)),
    };
    let created_at = match DateTimeStamp::column_result(created_at) {
        Ok(stamp) => stamp,
        Err(e) => return Err(RowError::Timestamp(e)),
    };
    let updated_at = match DateTimeStamp::column_result(updated_at) {
        Ok(stamp) => stamp,
        Err(e) => return Err(RowError::Timestamp(e)),
    };
    Ok(ArtistName { id, artist_id, name, normalized_name, kind, locale, created_at, updated_at })
}

/// The columns of a new `artist_names` row, timestamps aside.
#[derive(Debug)]
pub struct NameRow {
    pub artist_id: i64,
    pub name: String,
    pub normalized_name: String,
    /// The kind's word.
    pub kind: Option<String>,
    /// The language's ISO 639-1 code.
    pub locale: Option<String>,
}

/// The content of a `NameRow`.
pub struct NameRowView {
    pub artist_id: i64,
    pub name: Seq<char>,
    pub normalized_name: Seq<char>,
    pub kind: Option<Seq<char>>,
    pub locale: Option<Seq<char>>,
}

impl View for NameRow {
    type V = NameRowView;

    open spec fn view(&self) -> NameRowView {
        NameRowView {
            artist_id: self.artist_id,
            name: self.name@,
            normalized_name: self.normalized_name@,
            kind: match self.kind {
                Some(k) => Some(k@),
                None => None,
            },
            locale: match self.locale {
                Some(l) => Some(l@),
                None => None,
            },
        }
    }
}

/// The row stored for `record` as a name of the artist `artist_id`.
pub open spec fn name_row_of(artist_id: i64, record: NameRecordView) -> NameRowView {
    NameRowView {
        artist_id,
        name: record.name,
        normalized_name: normalized(record.name),
        kind: match record.name_type {
            Some(k) => Some(kind_word(k)),
            None => None,
        },
        locale: record.locale,
    }
}

/// The row to insert for `record` as a name of the artist `artist_id`.
pub fn name_row(artist_id: i64, record: &NameRecord) -> (r: NameRow)
    ensures
        r@ == name_row_of(artist_id, record@),
{
    let kind = match &record.name_type {
        Some(k) => Some(k.to_string()),
        None => None,
    };
    let locale = match &record.locale {
        Some(language) => language.to_639_1(),
        None => None,
    };
    NameRow {
        artist_id,
        name: record.name.clone(),
        normalized_name: normalize_name(record.name.as_str()),
        kind,
        locale,
    }
}

/// How an added artist's variants are mentioned: nothing for none.
pub open spec fn variant_label(count: nat) -> Seq<char> {
    if count >= 2 {
        "(with "@ + decimal(count) + " variants)"@
    } else if count == 1 {
        "(with 1 variant)"@
    } else {
        Seq::empty()
    }
}

/// The mention of `count` variants in the message for an added artist.
pub fn variant_label_for(count: usize) -> (r: String)
    ensures
        r@ == variant_label(count as nat),
{
    if count >= 2 {
        let mut label = String::from_str("(with ");
        push_decimal(&mut label, count);
        push_str(&mut label, " variants)");
        label
    } else if count == 1 {
        String::from_str("(with 1 variant)")
    } else {
        String::new()
    }
}

/// The next database statement of an artist entry.
#[derive(Debug)]
pub enum AddAction {
    /// Insert a row into `artists`; its row id is the artist's id.
    InsertArtist,
    /// Insert this row into `artist_names`.
    InsertName(NameRow),
    /// Make the name row `name_id` the primary name of the artist `artist_id`.
    SetPrimary { name_id: i64, artist_id: i64 },
    /// The entry is complete: report it and return the artist's id.
    Done { artist_id: i64, variant_label: String },
}

/// The content of an `AddAction`.
pub enum AddActionView {
    InsertArtist,
    InsertName(NameRowView),
    SetPrimary { name_id: i64, artist_id: i64 },
    Done { artist_id: i64, variant_label: Seq<char> },
}

impl View for AddAction {
    type V = AddActionView;

    open spec fn view(&self) -> AddActionView {
        match self {
            AddAction::InsertArtist => AddActionView::InsertArtist,
            AddAction::InsertName(row) => AddActionView::InsertName(row@),
            AddAction::SetPrimary { name_id, artist_id } => AddActionView::SetPrimary {
                name_id: *name_id,
                artist_id: *artist_id,
            },
            AddAction::Done { artist_id, variant_label } => AddActionView::Done {
                artist_id: *artist_id,
                variant_label: variant_label@,
            },
        }
    }
}

/// Where an artist entry stands: which statement's row id it waits for.
#[derive(Debug, Clone, Copy, PartialEq, Eq, Structural)]
pub enum AddPhase {
    Start,
    AwaitArtist,
    AwaitPrimaryName,
    AwaitPrimarySet,
    AwaitVariant,
    Finished,
}

/// An artist entry in progress: a primary name and its variants to be written.
pub struct AddArtist<'a> {
    name: &'a NameRecord,
    variants: &'a Vec<NameVariantRecord>,
    phase: AddPhase,
    artist_id: i64,
    next_variant: usize,
}

/// The content of an `AddArtist`.
pub struct AddArtistView {
    pub name: NameRecordView,
    pub variants: Seq<NameRecordView>,
    pub phase: AddPhase,
    pub artist_id: i64,
    pub next_variant: nat,
}

/// The records of a list of variants.
pub open spec fn variant_records(variants: Seq<NameVariantRecord>) -> Seq<NameRecordView> {
    variants.map_values(|v: NameVariantRecord| v.record@)
}

impl<'a> View for AddArtist<'a> {
    type V = AddArtistView;

    closed spec fn view(&self) -> AddArtistView {
        AddArtistView {
            name: self.name@,
            variants: variant_records(self.variants@),
            phase: self.phase,
            artist_id: self.artist_id,
            next_variant: self.next_variant as nat,
        }
    }
}

/// A new entry for `name` with `variants`.
pub open spec fn add_start(name: NameRecordView, variants: Seq<NameRecordView>) -> AddArtistView {
    AddArtistView { name, variants, phase: AddPhase::Start, artist_id: 0, next_variant: 0 }
}

/// One step of an entry: given the row id that the last statement produced, the next state
/// and the next statement.
pub open spec fn add_step(m: AddArtistView, row_id: i64) -> (AddArtistView, AddActionView) {
    match m.phase {
        AddPhase::Start => (AddArtistView { phase: AddPhase::AwaitArtist, ..m }, AddActionView::InsertArtist),
        AddPhase::AwaitArtist => (
            AddArtistView { phase: AddPhase::AwaitPrimaryName, artist_id: row_id, ..m },
            AddActionView::InsertName(name_row_of(row_id, m.name)),
        ),
        AddPhase::AwaitPrimaryName => (
            AddArtistView { phase: AddPhase::AwaitPrimarySet, ..m },
            AddActionView::SetPrimary { name_id: row_id, artist_id: m.artist_id },
        ),
        AddPhase::Finished => (m, AddActionView::Done { artist_id: m.artist_id, variant_label: variant_label(m.variants.len()) }),
        _ => if m.next_variant < m.variants.len() {
            (
                AddArtistView { phase: AddPhase::AwaitVariant, next_variant: m.next_variant + 1, ..m },
                AddActionView::InsertName(name_row_of(m.artist_id, m.variants[m.next_variant as int])),
            )
        } else {
            (
                AddArtistView { phase: AddPhase::Finished, ..m },
                AddActionView::Done { artist_id: m.artist_id, variant_label: variant_label(m.variants.len()) },
            )
        },
    }
}

impl<'a> AddArtist<'a> {
    #[verifier::type_invariant]
    closed spec fn inv(self) -> bool {
        self.next_variant <= self.variants@.len()
    }

    /// An entry for the primary name `name` and the further names `variants`.
    pub fn new(name: &'a NameRecord, variants: &'a Vec<NameVariantRecord>) -> (r: AddArtist<'a>)
        ensures
            r@ == add_start(name@, variant_records(variants@)),
    {
        AddArtist { name, variants, phase: AddPhase::Start, artist_id: 0, next_variant: 0 }
    }

    /// Whether the entry is complete.
    pub fn is_finished(&self) -> (r: bool)
        ensures
            r == (self@.phase == AddPhase::Finished),
    {
        match self.phase {
            AddPhase::Finished => true,
            _ => false,
        }
    }

    /// The next statement, given the row id that the last one produced (ignored where the
    /// last statement was not an insert).
    pub fn next(&mut self, row_id: i64) -> (r: AddAction)
        requires
            old(self)@.phase != AddPhase::Finished,
        ensures
            (final(self)@, r@) == add_step(old(self)@, row_id),
    {
        proof {
            use_type_invariant(&*self);
        }
        match self.phase {
            AddPhase::Start => {
                self.phase = AddPhase::AwaitArtist;
                AddAction::InsertArtist
            },
            AddPhase::AwaitArtist => {
                self.phase = AddPhase::AwaitPrimaryName;
                self.artist_id = row_id;
                AddAction::InsertName(name_row(row_id, self.name))
            },
            AddPhase::AwaitPrimaryName => {
                self.phase = AddPhase::AwaitPrimarySet;
                AddAction::SetPrimary { name_id: row_id, artist_id: self.artist_id }
            },
            _ => {
                if self.next_variant < self.variants.len() {
                    let row = name_row(self.artist_id, &self.variants[self.next_variant].record);
                    self.phase = AddPhase::AwaitVariant;
                    self.next_variant = self.next_variant + 1;
                    AddAction::InsertName(row)
                } else {
                    self.phase = AddPhase::Finished;
                    AddAction::Done {
                        artist_id: self.artist_id,
                        variant_label: variant_label_for(self.variants.len()),
                    }
                }
            },
        }
    }
}

/// The statements of an entry for `name` with `variants`, where the artist row gets the id
/// `artist_id` and the primary name row the id `name_id`.
pub open spec fn add_actions(
    name: NameRecordView,
    variants: Seq<NameRecordView>,
    artist_id: i64,
    name_id: i64,
) -> Seq<AddActionView> {
    seq![
        AddActionView::InsertArtist,
        AddActionView::InsertName(name_row_of(artist_id, name)),
        AddActionView::SetPrimary { name_id, artist_id },
    ] + Seq::new(
        variants.len(),
        |i: int| AddActionView::InsertName(name_row_of(artist_id, variants[i])),
    ) + seq![AddActionView::Done { artist_id, variant_label: variant_label(variants.len()) }]
}

/// The statements an entry issues when the successive statements produce the row ids `ids`.
pub open spec fn add_run(m: AddArtistView, ids: Seq<i64>) -> Seq<AddActionView>
    decreases ids.len(),
{
    if ids.len() == 0 {
        Seq::empty()
    } else {
        let (next, action) = add_step(m, ids[0]);
        seq![action] + add_run(next, ids.drop_first())
    }
}

proof fn lemma_add_run_variants(m: AddArtistView, ids: Seq<i64>)
    requires
        m.phase == AddPhase::AwaitPrimarySet || m.phase == AddPhase::AwaitVariant,
        m.next_variant <= m.variants.len(),
        ids.len() == m.variants.len() - m.next_variant + 1,
    ensures
        add_run(m, ids) == Seq::new(
            (m.variants.len() - m.next_variant) as nat,
            |i: int| AddActionView::InsertName(name_row_of(m.artist_id, m.variants[m.next_variant + i])),
        ) + seq![AddActionView::Done { artist_id: m.artist_id, variant_label: variant_label(m.variants.len()) }],
    decreases ids.len(),
{
    let (next, action) = add_step(m, ids[0]);
    if m.next_variant < m.variants.len() {
        lemma_add_run_variants(next, ids.drop_first());
        assert(add_run(m, ids) =~= Seq::new(
            (m.variants.len() - m.next_variant) as nat,
            |i: int| AddActionView::InsertName(name_row_of(m.artist_id, m.variants[m.next_variant + i])),
        ) + seq![AddActionView::Done { artist_id: m.artist_id, variant_label: variant_label(m.variants.len()) }]);
    } else {
        assert(add_run(next, ids.drop_first()) =~= Seq::<AddActionView>::empty());
        assert(add_run(m, ids) =~= Seq::new(
            (m.variants.len() - m.next_variant) as nat,
            |i: int| AddActionView::InsertName(name_row_of(m.artist_id, m.variants[m.next_variant + i])),
        ) + seq![AddActionView::Done { artist_id: m.artist_id, variant_label: variant_label(m.variants.len()) }]);
    }
}

/// Adding an artist writes one `artists` row, then the primary name's row under that
/// artist's id, makes that name row the artist's primary name, then writes one row per
/// variant, in the given order and under the same artist id, and ends by returning the
/// artist's id with the mention of the number of variants.
pub proof fn lemma_add_trace(name: NameRecordView, variants: Seq<NameRecordView>, ids: Seq<i64>)
    requires
        ids.len() == variants.len() + 4,
    ensures
        add_run(add_start(name, variants), ids) == add_actions(name, variants, ids[1], ids[2]),
{
    let m0 = add_start(name, variants);
    let (m1, a0) = add_step(m0, ids[0]);
    let (m2, a1) = add_step(m1, ids[1]);
    let (m3, a2) = add_step(m2, ids[2]);
    let rest = ids.drop_first().drop_first().drop_first();
    lemma_add_run_variants(m3, rest);
    let ids1 = ids.drop_first();
    let ids2 = ids1.drop_first();
    assert(ids1[0] == ids[1]);
    assert(ids2[0] == ids[2]);
    assert(add_run(m2, ids2) == seq![a2] + add_run(m3, rest));
    assert(add_run(m1, ids1) == seq![a1] + add_run(m2, ids2));
    assert(add_run(m0, ids) == seq![a0] + add_run(m1, ids1));
    assert(add_run(m0, ids) =~= seq![a0, a1, a2] + add_run(m3, rest));
    assert(add_run(add_start(name, variants), ids) =~= add_actions(name, variants, ids[1], ids[2]));
}

} // verus!
