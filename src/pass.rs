use vstd::prelude::*;

use crate::error::Error;
use crate::text::{copy_range, decode_utf8_bytes, text_eq, texts};

verus! {

// ---------------------------------------------------------------------------
// The mathematical model of an entry's text
// ---------------------------------------------------------------------------

/// What a field means, over character sequences.
pub enum FieldModel {
    Password(Seq<char>),
    KeyVal(Seq<char>, Seq<char>),
    Other(Seq<char>),
}

/// The two characters that split a key from its value.
pub open spec fn is_separator_at(s: Seq<char>, i: int) -> bool {
    0 <= i && i + 1 < s.len() && s[i] == ':' && s[i + 1] == ' '
}

/// The first position at or after `i` where the separator `": "` starts.
pub open spec fn separator_from(s: Seq<char>, i: int) -> Option<int>
    decreases s.len() - i,
{
    if i < 0 || i + 1 >= s.len() {
        None
    } else if is_separator_at(s, i) {
        Some(i)
    } else {
        separator_from(s, i + 1)
    }
}

/// How a line after the first one is read: split at the first `": "`, or kept
/// verbatim when it has none.
pub open spec fn classify(line: Seq<char>) -> FieldModel {
    match separator_from(line, 0) {
        Some(k) => FieldModel::KeyVal(line.subrange(0, k), line.subrange(k + 2, line.len() as int)),
        None => FieldModel::Other(line),
    }
}

/// The line that a field is written as.
pub open spec fn field_line(f: FieldModel) -> Seq<char> {
    match f {
        FieldModel::Password(v) => v,
        FieldModel::KeyVal(k, v) => k + seq![':', ' '] + v,
        FieldModel::Other(v) => v,
    }
}

/// The value that a field carries.
pub open spec fn field_value(f: FieldModel) -> Seq<char> {
    match f {
        FieldModel::Password(v) => v,
        FieldModel::KeyVal(_k, v) => v,
        FieldModel::Other(v) => v,
    }
}

/// The name under which a field is shown when it is edited.
pub open spec fn field_label(f: FieldModel) -> Seq<char> {
    match f {
        FieldModel::Password(_) => "password"@,
        FieldModel::KeyVal(k, _) => k,
        FieldModel::Other(_) => "string"@,
    }
}

/// The same field with its value replaced and its kind and key kept.
pub open spec fn with_value(f: FieldModel, v: Seq<char>) -> FieldModel {
    match f {
        FieldModel::Password(_) => FieldModel::Password(v),
        FieldModel::KeyVal(k, _) => FieldModel::KeyVal(k, v),
        FieldModel::Other(_) => FieldModel::Other(v),
    }
}

/// A line without the carriage return that ends it, if any.
pub open spec fn strip_cr(line: Seq<char>) -> Seq<char> {
    if line.len() > 0 && line.last() == '\r' {
        line.drop_last()
    } else {
        line
    }
}

/// The lines of `s` from a line that starts at `start`, scanning at `j`.
/// A line ends at `'\n'`, which is dropped together with a `'\r'` just before
/// it; the last line needs no terminator, and a final terminator opens no
/// further line.
pub open spec fn lines_scan(s: Seq<char>, start: int, j: int) -> Seq<Seq<char>>
    decreases s.len() - j,
{
    if j >= s.len() {
        if start >= s.len() {
            seq![]
        } else {
            seq![s.subrange(start, s.len() as int)]
        }
    } else if s[j] == '\n' {
        seq![strip_cr(s.subrange(start, j))] + lines_scan(s, j + 1, j + 1)
    } else {
        lines_scan(s, start, j + 1)
    }
}

/// The lines of a text.
pub open spec fn lines_of(s: Seq<char>) -> Seq<Seq<char>> {
    lines_scan(s, 0, 0)
}

/// The fields that a sequence of lines is read as: the first line is the
/// password (an empty one when there are no lines), each other line is
/// classified.
pub open spec fn fields_of_lines(ls: Seq<Seq<char>>) -> Seq<FieldModel> {
    if ls.len() == 0 {
        seq![FieldModel::Password(seq![])]
    } else {
        seq![FieldModel::Password(ls[0])] + ls.drop_first().map_values(|l: Seq<char>| classify(l))
    }
}

/// The fields that an entry's text is read as.
pub open spec fn parse(text: Seq<char>) -> Seq<FieldModel> {
    fields_of_lines(lines_of(text))
}

/// Lines joined with `'\n'` between each two.
pub open spec fn join_lines(ls: Seq<Seq<char>>) -> Seq<char>
    decreases ls.len(),
{
    if ls.len() == 0 {
        seq![]
    } else if ls.len() == 1 {
        ls[0]
    } else {
        ls[0] + seq!['\n'] + join_lines(ls.drop_first())
    }
}

/// The text that a sequence of fields is written as.
pub open spec fn serialize(fields: Seq<FieldModel>) -> Seq<char> {
    join_lines(fields.map_values(|f: FieldModel| field_line(f)))
}

/// The value of the first password field, scanning from `i`.
pub open spec fn password_from(fields: Seq<FieldModel>, i: int) -> Option<Seq<char>>
    decreases fields.len() - i,
{
    if i < 0 || i >= fields.len() {
        None
    } else if let FieldModel::Password(v) = fields[i] {
        Some(v)
    } else {
        password_from(fields, i + 1)
    }
}

/// The value of the first key-value field with key `key`, scanning from `i`.
pub open spec fn value_for_key_from(fields: Seq<FieldModel>, key: Seq<char>, i: int) -> Option<
    Seq<char>,
>
    decreases fields.len() - i,
{
    if i < 0 || i >= fields.len() {
        None
    } else if fields[i] is KeyVal && fields[i]->KeyVal_0 == key {
        Some(fields[i]->KeyVal_1)
    } else {
        value_for_key_from(fields, key, i + 1)
    }
}

/// The value of the first key-value field with key `key`.
pub open spec fn value_for_key(fields: Seq<FieldModel>, key: Seq<char>) -> Option<Seq<char>> {
    value_for_key_from(fields, key, 0)
}

/// A live document: at least one field, and the first is the password.
pub open spec fn well_formed(fields: Seq<FieldModel>) -> bool {
    fields.len() >= 1 && fields[0] is Password
}

// ---------------------------------------------------------------------------
// Fields and entries
// ---------------------------------------------------------------------------

/// One line of an entry.
#[derive(Debug)]
pub enum PassEntryField {
    /// The secret itself; the first line.
    Password(String),
    /// A line of the form `key: value`.
    KeyVal(String, String),
    /// Any other line, kept verbatim.
    Other(String),
}

impl View for PassEntryField {
    type V = FieldModel;

    open spec fn view(&self) -> FieldModel {
        match self {
            PassEntryField::Password(v) => FieldModel::Password(v@),
            PassEntryField::KeyVal(k, v) => FieldModel::KeyVal(k@, v@),
            PassEntryField::Other(v) => FieldModel::Other(v@),
        }
    }
}

impl PassEntryField {
    /// A copy of this field.
    pub fn duplicate(&self) -> (r: PassEntryField)
        ensures
            r@ == self@,
    {
        match self {
            PassEntryField::Password(v) => PassEntryField::Password(v.clone()),
            PassEntryField::KeyVal(k, v) => PassEntryField::KeyVal(k.clone(), v.clone()),
            PassEntryField::Other(v) => PassEntryField::Other(v.clone()),
        }
    }

    /// The value that this field carries.
    pub fn value(&self) -> (r: &String)
        ensures
            r@ == field_value(self@),
    {
        match self {
            PassEntryField::Password(v) => v,
            PassEntryField::KeyVal(_, v) => v,
            PassEntryField::Other(v) => v,
        }
    }

    /// The name under which this field is shown when it is edited.
    pub fn key_label(&self) -> (r: String)
        ensures
            r@ == field_label(self@),
    {
        match self {
            PassEntryField::Password(_) => "password".to_owned(),
            PassEntryField::KeyVal(k, _) => k.clone(),
            PassEntryField::Other(_) => "string".to_owned(),
        }
    }

    /// The line that this field is written as.
    pub fn to_line(&self) -> (r: String)
        ensures
            r@ == field_line(self@),
    {
        match self {
            PassEntryField::Password(v) => v.clone(),
            PassEntryField::KeyVal(k, v) => {
                let mut line = k.clone();
                let sep = ": ";
                proof {
                    reveal_strlit(": ");
                }
                line.append(sep);
                line.append(v.as_str());
                line
            },
            PassEntryField::Other(v) => v.clone(),
        }
    }
}

/// Reads one line after the first: a key-value field when it holds `": "`,
/// split at the first occurrence, else a field kept verbatim.
pub fn classify_line(line: &str) -> (r: PassEntryField)
    ensures
        r@ == classify(line@),
{
    let n = line.unicode_len();
    let mut i: usize = 0;
    while n > 0 && i < n - 1
        invariant
            n == line@.len(),
            i <= n,
            separator_from(line@, 0) == separator_from(line@, i as int),
        decreases n - i,
    {
        if line.get_char(i) == ':' && line.get_char(i + 1) == ' ' {
            return PassEntryField::KeyVal(copy_range(line, 0, i), copy_range(line, i + 2, n));
        }
        i = i + 1;
    }
    PassEntryField::Other(line.to_owned())
}

// ---------------------------------------------------------------------------
// Lemmas on the text model
// ---------------------------------------------------------------------------

proof fn lemma_separator_from_found(s: Seq<char>, i: int)
    ensures
        separator_from(s, i) matches Some(k) ==> i <= k && is_separator_at(s, k),
    decreases s.len() - i,
{
    if !(i < 0 || i + 1 >= s.len()) && !is_separator_at(s, i) {
        lemma_separator_from_found(s, i + 1);
    }
}

/// Writing a classified line gives the line back.
pub proof fn lemma_classify_line_round_trip(line: Seq<char>)
    ensures
        field_line(classify(line)) == line,
{
    lemma_separator_from_found(line, 0);
    if let Some(k) = separator_from(line, 0) {
        assert(line.subrange(0, k) + seq![':', ' '] + line.subrange(k + 2, line.len() as int)
            =~= line);
    }
}

proof fn lemma_join_push(ls: Seq<Seq<char>>, x: Seq<char>)
    requires
        ls.len() >= 1,
    ensures
        join_lines(ls.push(x)) == join_lines(ls) + seq!['\n'] + x,
    decreases ls.len(),
{
    assert(ls.push(x)[0] == ls[0]);
    if ls.len() == 1 {
        assert(ls.push(x).drop_first() =~= seq![x]);
        assert(join_lines(seq![x]) == x);
        assert(join_lines(ls) == ls[0]);
    } else {
        assert(ls.push(x).drop_first() =~= ls.drop_first().push(x));
        lemma_join_push(ls.drop_first(), x);
        assert(ls[0] + seq!['\n'] + (join_lines(ls.drop_first()) + seq!['\n'] + x)
            =~= ls[0] + seq!['\n'] + join_lines(ls.drop_first()) + seq!['\n'] + x);
    }
}

proof fn lemma_lines_scan_nonempty(s: Seq<char>, start: int, j: int)
    requires
        0 <= start <= j <= s.len(),
        start < s.len(),
    ensures
        lines_scan(s, start, j).len() >= 1,
    decreases s.len() - j,
{
    if j < s.len() && s[j] != '\n' {
        lemma_lines_scan_nonempty(s, start, j + 1);
    }
}

/// `s` holds no `'\r'` directly before a `'\n'`.
pub open spec fn no_crlf(s: Seq<char>) -> bool {
    forall|i: int| 0 < i < s.len() && #[trigger] s[i] == '\n' ==> s[i - 1] != '\r'
}

/// `s` ends with a line terminator.
pub open spec fn ends_with_newline(s: Seq<char>) -> bool {
    s.len() > 0 && s.last() == '\n'
}

proof fn lemma_join_lines_scan(s: Seq<char>, start: int, j: int)
    requires
        0 <= start <= j <= s.len(),
        no_crlf(s),
        !ends_with_newline(s),
        forall|k: int| start <= k < j ==> s[k] != '\n',
    ensures
        join_lines(lines_scan(s, start, j)) == s.subrange(start, s.len() as int),
    decreases s.len() - j,
{
    if j >= s.len() {
    } else if s[j] == '\n' {
        let rest = lines_scan(s, j + 1, j + 1);
        assert(j + 1 < s.len());
        lemma_lines_scan_nonempty(s, j + 1, j + 1);
        lemma_join_lines_scan(s, j + 1, j + 1);
        let first = s.subrange(start, j);
        assert(strip_cr(first) == first);
        let ls = seq![first] + rest;
        assert(ls.drop_first() =~= rest);
        assert(first + seq!['\n'] + s.subrange(j + 1, s.len() as int) =~= s.subrange(
            start,
            s.len() as int,
        ));
    } else {
        lemma_join_lines_scan(s, start, j + 1);
    }
}

/// Reading a text and writing it back gives the same text, for every text
/// without a carriage return before a line feed and without a final line
/// terminator (both of which reading drops).
pub proof fn lemma_parse_serialize_round_trip(text: Seq<char>)
    requires
        no_crlf(text),
        !ends_with_newline(text),
    ensures
        serialize(parse(text)) == text,
{
    let ls = lines_of(text);
    lemma_join_lines_scan(text, 0, 0);
    assert(text.subrange(0, text.len() as int) =~= text);
    let lines = parse(text).map_values(|f: FieldModel| field_line(f));
    if ls.len() == 0 {
        assert(lines =~= seq![seq![]]);
    } else {
        assert forall|i: int| 0 <= i < ls.len() implies lines[i] == ls[i] by {
            if i > 0 {
                lemma_classify_line_round_trip(ls[i]);
            }
        }
        assert(lines =~= ls);
    }
}

/// Every mutation of a live document leaves it live: inserting at any index
/// up to the length, replacing the value at any index, and removing at any
/// index but 0 keep at least one field with the password first.
pub proof fn lemma_mutations_keep_password_first(
    fields: Seq<FieldModel>,
    index: int,
    line: Seq<char>,
)
    requires
        well_formed(fields),
    ensures
        0 <= index <= fields.len() ==> well_formed(
            fields.insert(index, inserted_field(index, line)),
        ),
        0 <= index < fields.len() ==> well_formed(
            fields.update(index, with_value(fields[index], line)),
        ),
        0 < index < fields.len() ==> well_formed(fields.remove(index)),
{
    if 0 <= index <= fields.len() && index > 0 {
        assert(fields.insert(index, inserted_field(index, line))[0] == fields[0]);
    }
    if 0 < index < fields.len() {
        assert(fields.remove(index)[0] == fields[0]);
    }
}

// ---------------------------------------------------------------------------
// Reading and writing text
// ---------------------------------------------------------------------------

/// Splits a text into its lines.
pub fn split_lines(s: &str) -> (r: Vec<String>)
    ensures
        texts(r@) == lines_of(s@),
{
    let n = s.unicode_len();
    let mut lines: Vec<String> = Vec::new();
    let mut start: usize = 0;
    let mut j: usize = 0;
    while j < n
        invariant
            n == s@.len(),
            start <= j <= n,
            texts(lines@) + lines_scan(s@, start as int, j as int) == lines_of(s@),
        decreases n - j,
    {
        if s.get_char(j) == '\n' {
            let mut end = j;
            if end > start && s.get_char(end - 1) == '\r' {
                end = end - 1;
            }
            let line = copy_range(s, start, end);
            assert(line@ == strip_cr(s@.subrange(start as int, j as int)));
            proof {
                let old_texts = texts(lines@);
                let rest = lines_scan(s@, j + 1, j + 1);
                assert(texts(lines@.push(line)) =~= old_texts.push(line@));
                assert(old_texts + (seq![line@] + rest) =~= old_texts.push(line@) + rest);
            }
            lines.push(line);
            j = j + 1;
            start = j;
        } else {
            j = j + 1;
        }
    }
    if start < n {
        let line = copy_range(s, start, n);
        assert(texts(lines@.push(line)) =~= texts(lines@) + seq![line@]);
        lines.push(line);
    } else {
        assert(texts(lines@) + seq![] =~= texts(lines@));
    }
    lines
}

/// Joins lines with `'\n'` between each two.
pub fn join_with_newlines(lines: &Vec<String>) -> (r: String)
    ensures
        r@ == join_lines(texts(lines@)),
{
    let mut out = String::new();
    let nl = "\n";
    proof {
        reveal_strlit("\n");
    }
    let n = lines.len();
    let mut i: usize = 0;
    while i < n
        invariant
            n == lines@.len(),
            i <= n,
            nl@ == seq!['\n'],
            out@ == join_lines(texts(lines@).subrange(0, i as int)),
        decreases n - i,
    {
        let ghost before = texts(lines@).subrange(0, i as int);
        proof {
            assert(texts(lines@).subrange(0, i + 1) =~= before.push(lines@[i as int]@));
            if i > 0 {
                lemma_join_push(before, lines@[i as int]@);
            } else {
                assert(before.push(lines@[i as int]@) =~= seq![lines@[i as int]@]);
                assert(out@ =~= seq![]);
            }
        }
        if i > 0 {
            out.append(nl);
        }
        out.append(lines[i].as_str());
        i = i + 1;
    }
    assert(texts(lines@).subrange(0, n as int) =~= texts(lines@));
    out
}

// ---------------------------------------------------------------------------
// Entries
// ---------------------------------------------------------------------------

/// Whether the secret store's `insert` succeeded, from its exit status.
pub fn check_store_status(exit_code: Option<i32>) -> (r: Result<(), Error>)
    ensures
        r is Ok <==> exit_code == Some(0i32),
        r is Err ==> r == Err::<(), Error>(Error::StoreFailed),
{
    match exit_code {
        Some(0) => Ok(()),
        _ => Err(Error::StoreFailed),
    }
}

/// The characters of an optional string.
pub open spec fn opt_text(o: Option<String>) -> Option<Seq<char>> {
    match o {
        Some(s) => Some(s@),
        None => None,
    }
}

/// The field that inserting `line` at `index` adds: the password at index 0,
/// a classified line elsewhere.
pub open spec fn inserted_field(index: int, line: Seq<char>) -> FieldModel {
    if index == 0 {
        FieldModel::Password(line)
    } else {
        classify(line)
    }
}

/// One decrypted entry of the store: its store-relative path and its fields,
/// in line order.
#[derive(Debug)]
pub struct PassEntry {
    pub path: String,
    pub fields: Vec<PassEntryField>,
}

impl PassEntry {
    /// The meaning of the fields.
    pub open spec fn fields_view(&self) -> Seq<FieldModel> {
        self.fields@.map_values(|f: PassEntryField| f@)
    }

    /// The entry is live: it has a password field at index 0.
    pub open spec fn wf(&self) -> bool {
        well_formed(self.fields_view())
    }

    /// A copy of this entry.
    pub fn duplicate(&self) -> (r: PassEntry)
        ensures
            r.path@ == self.path@,
            r.fields_view() == self.fields_view(),
    {
        let mut fields: Vec<PassEntryField> = Vec::new();
        let n = self.fields.len();
        let mut i: usize = 0;
        while i < n
            invariant
                n == self.fields@.len(),
                i <= n,
                fields@.map_values(|f: PassEntryField| f@) == self.fields_view().subrange(0, i as int),
            decreases n - i,
        {
            let copy = self.fields[i].duplicate();
            assert(fields@.push(copy).map_values(|f: PassEntryField| f@) =~= fields@.map_values(
                |f: PassEntryField| f@,
            ).push(copy@));
            assert(self.fields_view().subrange(0, i + 1) =~= self.fields_view().subrange(
                0,
                i as int,
            ).push(self.fields_view()[i as int]));
            fields.push(copy);
            i = i + 1;
        }
        assert(self.fields_view().subrange(0, n as int) =~= self.fields_view());
        PassEntry { path: self.path.clone(), fields }
    }

    /// Reads the text of the entry at `path`.
    pub fn from_text(path: &str, text: &str) -> (r: PassEntry)
        ensures
            r.path@ == path@,
            r.fields_view() == parse(text@),
            r.wf(),
    {
        let lines = split_lines(text);
        let ghost ls = texts(lines@);
        let mut fields: Vec<PassEntryField> = Vec::new();
        if lines.len() == 0 {
            fields.push(PassEntryField::Password(String::new()));
            assert(fields@.map_values(|f: PassEntryField| f@) =~= parse(text@));
        } else {
            fields.push(PassEntryField::Password(lines[0].clone()));
            let n = lines.len();
            let mut i: usize = 1;
            while i < n
                invariant
                    n == lines@.len(),
                    ls == texts(lines@),
                    1 <= i <= n,
                    fields@.map_values(|f: PassEntryField| f@) == seq![FieldModel::Password(ls[0])]
                        + ls.subrange(1, i as int).map_values(|l: Seq<char>| classify(l)),
                decreases n - i,
            {
                let field = classify_line(lines[i].as_str());
                proof {
                    assert(ls.subrange(1, i + 1) =~= ls.subrange(1, i as int).push(ls[i as int]));
                    assert(fields@.push(field).map_values(|f: PassEntryField| f@)
                        =~= fields@.map_values(|f: PassEntryField| f@).push(field@));
                    assert(ls.subrange(1, i + 1).map_values(|l: Seq<char>| classify(l))
                        =~= ls.subrange(1, i as int).map_values(|l: Seq<char>| classify(l)).push(classify(ls[i as int])));
                }
                fields.push(field);
                i = i + 1;
            }
            assert(ls.subrange(1, n as int) =~= ls.drop_first());
            assert(fields@.map_values(|f: PassEntryField| f@) =~= parse(text@));
        }
        PassEntry { path: path.to_owned(), fields }
    }

    /// Reads the output of the secret store for the entry at `path`; fails
    /// with `EncodingError` exactly when the output is not valid UTF-8.
    pub fn from_output(entry_path: &str, stdout: Vec<u8>) -> (r: Result<PassEntry, Error>)
        ensures
            r is Ok <==> vstd::utf8::valid_utf8(stdout@),
            r matches Ok(e) ==> e.path@ == entry_path@ && e.fields_view() == parse(
                vstd::utf8::decode_utf8(stdout@),
            ) && e.wf(),
            r matches Err(err) ==> err == Error::EncodingError,
    {
        match decode_utf8_bytes(stdout) {
            Some(text) => Ok(PassEntry::from_text(entry_path, text.as_str())),
            None => Err(Error::EncodingError),
        }
    }

    /// The line of each field, in order.
    pub fn field_lines(&self) -> (r: Vec<String>)
        ensures
            texts(r@) == self.fields_view().map_values(|f: FieldModel| field_line(f)),
    {
        let mut lines: Vec<String> = Vec::new();
        let n = self.fields.len();
        let mut i: usize = 0;
        while i < n
            invariant
                n == self.fields@.len(),
                i <= n,
                texts(lines@) == self.fields_view().subrange(0, i as int).map_values(
                    |f: FieldModel| field_line(f),
                ),
            decreases n - i,
        {
            let line = self.fields[i].to_line();
            proof {
                assert(texts(lines@.push(line)) =~= texts(lines@).push(line@));
                assert(self.fields_view().subrange(0, i + 1).map_values(|f: FieldModel| field_line(f))
                    =~= self.fields_view().subrange(0, i as int).map_values(|f: FieldModel| field_line(f)).push(
                    field_line(self.fields_view()[i as int]),
                ));
            }
            lines.push(line);
            i = i + 1;
        }
        assert(self.fields_view().subrange(0, n as int) =~= self.fields_view());
        lines
    }

    /// Reads what the secret store's `show` for `entry_path` ended with: on
    /// status 0 the entry its output holds; status 2 means that a passphrase
    /// is needed (`PinentryRequired`), or, when one was given, that it was
    /// wrong (`InvalidPassphrase`); any other status, or none, is
    /// `StoreFailed`.
    pub fn from_show_output(
        entry_path: &str,
        exit_code: Option<i32>,
        stdout: Vec<u8>,
        with_passphrase: bool,
    ) -> (r: Result<PassEntry, Error>)
        ensures
            exit_code == Some(0i32) ==> {
                &&& r is Ok <==> vstd::utf8::valid_utf8(stdout@)
                &&& r matches Ok(e) ==> e.path@ == entry_path@ && e.fields_view() == parse(
                    vstd::utf8::decode_utf8(stdout@),
                )
                &&& r matches Err(err) ==> err == Error::EncodingError
            },
            exit_code == Some(2i32) && with_passphrase ==> r == Err::<PassEntry, Error>(
                Error::InvalidPassphrase,
            ),
            exit_code == Some(2i32) && !with_passphrase ==> r == Err::<PassEntry, Error>(
                Error::PinentryRequired,
            ),
            exit_code != Some(0i32) && exit_code != Some(2i32) ==> r == Err::<PassEntry, Error>(
                Error::StoreFailed,
            ),
    {
        match exit_code {
            Some(0) => PassEntry::from_output(entry_path, stdout),
            Some(2) => if with_passphrase {
                Err(Error::InvalidPassphrase)
            } else {
                Err(Error::PinentryRequired)
            },
            _ => Err(Error::StoreFailed),
        }
    }

    /// The text of the entry: each field's line, joined with `'\n'`.
    pub fn serialize(&self) -> (r: String)
        ensures
            r@ == serialize(self.fields_view()),
    {
        let lines = self.field_lines();
        join_with_newlines(&lines)
    }

    /// What the secret store is handed to save this entry: the entry's text
    /// with a final line terminator.
    pub fn store_payload(&self) -> (r: String)
        ensures
            r@ == serialize(self.fields_view()) + seq!['\n'],
    {
        let mut text = self.serialize();
        let nl = "\n";
        proof {
            reveal_strlit("\n");
        }
        text.append(nl);
        text
    }

    /// The value of the first password field.
    pub fn get_password(&self) -> (r: Option<String>)
        ensures
            opt_text(r) == password_from(self.fields_view(), 0),
            self.wf() ==> opt_text(r) == Some(field_value(self.fields_view()[0])),
    {
        let n = self.fields.len();
        let mut i: usize = 0;
        while i < n
            invariant
                n == self.fields@.len(),
                i <= n,
                password_from(self.fields_view(), 0) == password_from(self.fields_view(), i as int),
            decreases n - i,
        {
            if let PassEntryField::Password(v) = &self.fields[i] {
                return Some(v.clone());
            }
            i = i + 1;
        }
        None
    }

    /// The value of the first key-value field whose key is `key`.
    pub fn get_value_with_key(&self, key: &str) -> (r: Option<String>)
        ensures
            opt_text(r) == value_for_key(self.fields_view(), key@),
    {
        let n = self.fields.len();
        let mut i: usize = 0;
        while i < n
            invariant
                n == self.fields@.len(),
                i <= n,
                value_for_key(self.fields_view(), key@) == value_for_key_from(
                    self.fields_view(),
                    key@,
                    i as int,
                ),
            decreases n - i,
        {
            if let PassEntryField::KeyVal(k, v) = &self.fields[i] {
                if text_eq(k.as_str(), key) {
                    return Some(v.clone());
                }
            }
            i = i + 1;
        }
        None
    }

    /// Inserts the field that `new_field` reads as at `index`, shifting later
    /// fields right. At index 0 the line always becomes the password field.
    pub fn insert_new_field(&mut self, index: usize, new_field: &str) -> (r: Result<(), Error>)
        ensures
            r is Ok <==> index <= old(self).fields@.len(),
            r is Ok ==> final(self).fields_view() == old(self).fields_view().insert(
                index as int,
                inserted_field(index as int, new_field@),
            ),
            r is Ok && index == 0 ==> final(self).fields_view()[0] == FieldModel::Password(
                new_field@,
            ),
            r is Err ==> r == Err::<(), Error>(Error::IndexOutOfRange) && final(self).fields_view()
                == old(self).fields_view(),
            final(self).path == old(self).path,
            old(self).wf() ==> final(self).wf(),
    {
        if index > self.fields.len() {
            return Err(Error::IndexOutOfRange);
        }
        let field = if index == 0 {
            PassEntryField::Password(new_field.to_owned())
        } else {
            classify_line(new_field)
        };
        let ghost before = self.fields@;
        self.fields.insert(index, field);
        assert(self.fields_view() =~= before.map_values(|f: PassEntryField| f@).insert(
            index as int,
            field@,
        ));
        Ok(())
    }

    /// Replaces the value of the field at `field_index`, keeping its kind and
    /// key.
    pub fn modify_field_value(&mut self, field_index: usize, new_value: &str) -> (r: Result<
        (),
        Error,
    >)
        ensures
            r is Ok <==> field_index < old(self).fields@.len(),
            r is Ok ==> final(self).fields_view() == old(self).fields_view().update(
                field_index as int,
                with_value(old(self).fields_view()[field_index as int], new_value@),
            ),
            r is Err ==> r == Err::<(), Error>(Error::FieldNotFound) && final(self).fields_view()
                == old(self).fields_view(),
            final(self).path == old(self).path,
            old(self).wf() ==> final(self).wf(),
    {
        if field_index >= self.fields.len() {
            return Err(Error::FieldNotFound);
        }
        let field = match &self.fields[field_index] {
            PassEntryField::Password(_) => PassEntryField::Password(new_value.to_owned()),
            PassEntryField::KeyVal(k, _) => PassEntryField::KeyVal(k.clone(), new_value.to_owned()),
            PassEntryField::Other(_) => PassEntryField::Other(new_value.to_owned()),
        };
        let ghost before = self.fields@;
        self.fields.set(field_index, field);
        assert(self.fields_view() =~= before.map_values(|f: PassEntryField| f@).update(
            field_index as int,
            field@,
        ));
        Ok(())
    }

    /// Removes the field at `index`, shifting later fields left. The password
    /// field at index 0 cannot be removed.
    pub fn remove_field(&mut self, index: usize) -> (r: Result<(), Error>)
        ensures
            r is Ok <==> 0 < index < old(self).fields@.len(),
            r is Ok ==> final(self).fields_view() == old(self).fields_view().remove(index as int),
            index == 0 ==> r == Err::<(), Error>(Error::CannotRemovePasswordField),
            index != 0 && index >= old(self).fields@.len() ==> r == Err::<(), Error>(
                Error::FieldNotFound,
            ),
            r is Err ==> final(self).fields_view() == old(self).fields_view(),
            final(self).path == old(self).path,
            old(self).wf() ==> final(self).wf(),
    {
        if index == 0 {
            return Err(Error::CannotRemovePasswordField);
        }
        if index >= self.fields.len() {
            return Err(Error::FieldNotFound);
        }
        let ghost before = self.fields@;
        let _removed = self.fields.remove(index);
        assert(self.fields_view() =~= before.map_values(|f: PassEntryField| f@).remove(
            index as int,
        ));
        Ok(())
    }
}

} // verus!
