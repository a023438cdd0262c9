//! Records, and the result of processing one feed.

use vstd::prelude::*;
use crate::entry::{Entry, EntryView};
use vstd::string::StringExecFns;
use crate::extract::{extract, extraction, fault_text};

verus! {

/// One extracted value under the name of its field.
#[derive(Debug)]
pub struct Row(pub String, pub String);

impl View for Row {
    type V = (Seq<char>, Seq<char>);

    open spec fn view(&self) -> (Seq<char>, Seq<char>) {
        (self.0@, self.1@)
    }
}

/// The rows of a list, each as a pair of texts.
pub open spec fn rows_view(rows: Seq<Row>) -> Seq<(Seq<char>, Seq<char>)> {
    Seq::new(rows.len(), |i: int| rows[i]@)
}

/// The value of the first row named `name`, or `None` where no row has
/// that name.
pub open spec fn first_value(rows: Seq<(Seq<char>, Seq<char>)>, name: Seq<char>) -> Option<
    Seq<char>,
>
    decreases rows.len(),
{
    if rows.len() == 0 {
        None
    } else if rows[0].0 == name {
        Some(rows[0].1)
    } else {
        first_value(rows.drop_first(), name)
    }
}

/// A row named `name` with no row of that name before it decides the
/// lookup.
pub proof fn lemma_first_value_found(rows: Seq<(Seq<char>, Seq<char>)>, name: Seq<char>, at: int)
    requires
        0 <= at < rows.len(),
        rows[at].0 == name,
        forall|j: int| 0 <= j < at ==> rows[j].0 != name,
    ensures
        first_value(rows, name) == Some(rows[at].1),
    decreases at,
{
    if at > 0 {
        let rest = rows.drop_first();
        assert(rest[at - 1] == rows[at]);
        assert forall|j: int| 0 <= j < at - 1 implies rest[j].0 != name by {
            assert(rest[j] == rows[j + 1]);
        }
        lemma_first_value_found(rest, name, at - 1);
    }
}

/// Where no row is named `name`, the lookup finds nothing.
pub proof fn lemma_first_value_missing(rows: Seq<(Seq<char>, Seq<char>)>, name: Seq<char>)
    requires
        forall|j: int| 0 <= j < rows.len() ==> rows[j].0 != name,
    ensures
        first_value(rows, name) is None,
    decreases rows.len(),
{
    if rows.len() > 0 {
        let rest = rows.drop_first();
        assert forall|j: int| 0 <= j < rest.len() implies rest[j].0 != name by {
            assert(rest[j] == rows[j + 1]);
        }
        lemma_first_value_missing(rest, name);
    }
}

/// Fields are addressed by name: among rows of which no two share a name,
/// a lookup finds a value exactly where some row holds it under that name,
/// wherever in the list that row stands.
pub proof fn lemma_lookup_is_by_name(
    rows: Seq<(Seq<char>, Seq<char>)>,
    name: Seq<char>,
    value: Seq<char>,
)
    requires
        forall|i: int, j: int| 0 <= i < j < rows.len() ==> rows[i].0 != rows[j].0,
    ensures
        first_value(rows, name) == Some(value) <==> rows.contains((name, value)),
{
    if exists|at: int| 0 <= at < rows.len() && rows[at].0 == name {
        let at = choose|at: int| 0 <= at < rows.len() && rows[at].0 == name;
        assert forall|j: int| 0 <= j < at implies rows[j].0 != name by {}
        lemma_first_value_found(rows, name, at);
        if rows.contains((name, value)) {
            let other = choose|k: int| 0 <= k < rows.len() && rows[k] == (name, value);
            assert(other == at) by {
                if other < at {
                    assert(rows[other].0 != rows[at].0);
                } else if at < other {
                    assert(rows[at].0 != rows[other].0);
                }
            }
        }
        if first_value(rows, name) == Some(value) {
            assert(rows[at] == (name, value));
        }
    } else {
        lemma_first_value_missing(rows, name);
        if rows.contains((name, value)) {
            let other = choose|k: int| 0 <= k < rows.len() && rows[k] == (name, value);
            assert(rows[other].0 == name);
        }
    }
}

/// The mathematical value of a [`FeedItem`]: for each of the three fields,
/// its text where the field is configured, and `None` where it is not.
pub struct Record {
    pub anchor: Option<Seq<char>>,
    pub content: Option<Seq<char>>,
    pub title: Option<Seq<char>>,
}

/// An optional text, as a value.
pub open spec fn text_view(text: Option<String>) -> Option<Seq<char>> {
    match text {
        Some(s) => Some(s@),
        None => None,
    }
}

/// The row of a field that is present, and no row for one that is not.
pub open spec fn present(name: Seq<char>, value: Option<Seq<char>>) -> Seq<(Seq<char>, Seq<char>)> {
    match value {
        Some(v) => seq![(name, v)],
        None => Seq::empty(),
    }
}

/// The rows of a record: one for each field that it has, under the
/// field's name, in the order anchor, content, title.
pub open spec fn record_rows(record: Record) -> Seq<(Seq<char>, Seq<char>)> {
    present("anchor"@, record.anchor) + present("content"@, record.content) + present(
        "title"@,
        record.title,
    )
}

/// A record is read back from its own rows: every field that it has is
/// found under its name, and a field that it lacks is not found.
pub proof fn lemma_rows_round_trip(record: Record)
    ensures
        first_value(record_rows(record), "anchor"@) == record.anchor,
        first_value(record_rows(record), "content"@) == record.content,
        first_value(record_rows(record), "title"@) == record.title,
{
    reveal_strlit("anchor");
    reveal_strlit("content");
    reveal_strlit("title");
    let rows = record_rows(record);
    let anchor = present("anchor"@, record.anchor);
    let content = present("content"@, record.content);
    assert("title"@.len() == 5 && "anchor"@.len() == 6 && "content"@.len() == 7);
    if record.anchor is Some {
        lemma_first_value_found(rows, "anchor"@, 0);
    } else {
        lemma_first_value_missing(rows, "anchor"@);
    }
    if record.content is Some {
        lemma_first_value_found(rows, "content"@, anchor.len() as int);
    } else {
        lemma_first_value_missing(rows, "content"@);
    }
    if record.title is Some {
        lemma_first_value_found(rows, "title"@, (anchor.len() + content.len()) as int);
    } else {
        lemma_first_value_missing(rows, "title"@);
    }
}

/// One record: the fields of one matched element.
#[derive(Clone, Debug, PartialEq, Eq)]
pub struct FeedItem {
    pub anchor: Option<String>,
    pub content: Option<String>,
    pub title: Option<String>,
}

impl View for FeedItem {
    type V = Record;

    open spec fn view(&self) -> Record {
        Record {
            anchor: text_view(self.anchor),
            content: text_view(self.content),
            title: text_view(self.title),
        }
    }
}

impl FeedItem {
    /// Looks `name` up among `entries`: the value of the first row of that
    /// name.
    pub fn get_entry(entries: &Vec<Row>, name: &str) -> (found: Option<String>)
        ensures
            text_view(found) == first_value(rows_view(entries@), name@),
    {
        let wanted = name.to_owned();
        let mut i: usize = 0;
        while i < entries.len()
            invariant
                i <= entries.len(),
                wanted@ == name@,
                forall|j: int| 0 <= j < i ==> rows_view(entries@)[j].0 != name@,
            decreases entries.len() - i,
        {
            if entries[i].0 == wanted {
                proof {
                    lemma_first_value_found(rows_view(entries@), name@, i as int);
                }
                return Some(entries[i].1.clone());
            }
            i += 1;
        }
        proof {
            lemma_first_value_missing(rows_view(entries@), name@);
        }
        None
    }

    /// Builds a record from the rows found in one element. A field that no
    /// row names is absent from the record; a field named more than once
    /// takes the value of its first row.
    pub fn from(entries: Vec<Row>) -> (item: FeedItem)
        ensures
            item@ == (Record {
                anchor: first_value(rows_view(entries@), "anchor"@),
                content: first_value(rows_view(entries@), "content"@),
                title: first_value(rows_view(entries@), "title"@),
            }),
    {
        let anchor = FeedItem::get_entry(&entries, "anchor");
        let content = FeedItem::get_entry(&entries, "content");
        let title = FeedItem::get_entry(&entries, "title");

        FeedItem { anchor, content, title }
    }

    /// The fields that the record has, as rows: a field that is absent
    /// gives no row, so that nothing but the configured fields is ever
    /// written out.
    pub fn to_rows(&self) -> (rows: Vec<Row>)
        ensures
            rows_view(rows@) == record_rows(self@),
    {
        let mut rows: Vec<Row> = Vec::new();
        assert(rows_view(rows@) =~= Seq::empty());
        match &self.anchor {
            Some(value) => {
                rows.push(Row("anchor".to_owned(), value.clone()));
            },
            None => {},
        }
        assert(rows_view(rows@) =~= present("anchor"@, self@.anchor));
        match &self.content {
            Some(value) => {
                rows.push(Row("content".to_owned(), value.clone()));
            },
            None => {},
        }
        assert(rows_view(rows@) =~= present("anchor"@, self@.anchor) + present(
            "content"@,
            self@.content,
        ));
        match &self.title {
            Some(value) => {
                rows.push(Row("title".to_owned(), value.clone()));
            },
            None => {},
        }
        assert(rows_view(rows@) =~= record_rows(self@));
        rows
    }
}

/// The records of a list, each as a value.
pub open spec fn records_view(items: Seq<FeedItem>) -> Seq<Record> {
    Seq::new(items.len(), |i: int| items[i]@)
}

/// The mathematical value of a [`Feed`].
pub struct FeedView {
    pub key: Seq<char>,
    pub name: Seq<char>,
    pub error: Option<Seq<char>>,
    pub contents: Seq<Record>,
}

impl FeedView {
    /// A failure carries no records.
    pub open spec fn consistent(self) -> bool {
        self.error is Some ==> self.contents.len() == 0
    }
}

/// What a failure on the feed `entry` amounts to.
pub open spec fn failure(entry: EntryView, message: Seq<char>) -> FeedView {
    FeedView { key: entry.key, name: entry.name, error: Some(message), contents: Seq::empty() }
}

/// What the records extracted for the feed `entry` amount to.
pub open spec fn success(entry: EntryView, records: Seq<Record>) -> FeedView {
    FeedView { key: entry.key, name: entry.name, error: None, contents: records }
}

/// What the page `body` amounts to for the feed `entry`: its records, or
/// a failure in the words of what kept extraction from giving any.
pub open spec fn feed_of_body(body: Seq<char>, limit: nat, entry: EntryView) -> FeedView {
    match extraction(body, entry, limit) {
        Ok(records) => success(entry, records),
        Err(fault) => failure(entry, fault_text(fault)),
    }
}

/// The outcome of one feed: its records, or the reason why there are none.
#[derive(Clone, Debug)]
pub struct Feed {
    pub key: String,
    error: Option<String>,
    name: String,
    contents: Vec<FeedItem>,
}

impl View for Feed {
    type V = FeedView;

    closed spec fn view(&self) -> FeedView {
        FeedView {
            key: self.key@,
            name: self.name@,
            error: text_view(self.error),
            contents: records_view(self.contents@),
        }
    }
}

impl Feed {
    /// The row that stands for a field whose element was not found.
    pub fn empty_row(key: String) -> (row: Row)
        ensures
            row@ == (key@, Seq::<char>::empty()),
    {
        Row(key, String::new())
    }

    /// The outcome of a feed that could not be processed.
    pub fn err(entry: Entry, error: String) -> (feed: Feed)
        ensures
            feed@ == failure(entry@, error@),
            feed@.consistent(),
    {
        let contents: Vec<FeedItem> = Vec::new();
        assert(records_view(contents@) =~= Seq::<Record>::empty());
        Feed { key: entry.key, name: entry.name, error: Some(error), contents }
    }

    /// The outcome of a feed whose page was fetched: the records that the
    /// rules of `entry` find in `body`, at most `limit` of them, or a
    /// failure where a rule is refused or the page is too long to parse.
    pub fn from(body: String, limit: usize, entry: Entry) -> (feed: Feed)
        ensures
            feed@ == feed_of_body(body@, limit as nat, entry@),
            feed@.consistent(),
    {
        match extract(body.as_str(), &entry, limit) {
            Ok(records) => Feed::ok(entry, records),
            Err(e) => Feed::err(entry, e.message()),
        }
    }

    /// The outcome of a feed whose page gave `records`.
    pub fn ok(entry: Entry, records: Vec<FeedItem>) -> (feed: Feed)
        ensures
            feed@ == success(entry@, records_view(records@)),
            feed@.consistent(),
    {
        Feed { key: entry.key, name: entry.name, error: None, contents: records }
    }

    /// Where the feed is written to below the directory `output`: the
    /// file that is named by the feed's key.
    pub fn file_name(&self, output: &str) -> (path: String)
        ensures
            path@ == output@ + "/"@ + self@.key + ".json"@,
    {
        let mut path = output.to_owned();
        path.append("/");
        path.append(self.key.as_str());
        path.append(".json");
        path
    }

    /// The feed's label.
    pub fn name(&self) -> (name: &String)
        ensures
            name@ == self@.name,
    {
        &self.name
    }

    /// Why the feed has no records, where it failed.
    pub fn error(&self) -> (error: &Option<String>)
        ensures
            text_view(*error) == self@.error,
    {
        &self.error
    }

    /// The feed's records, in the order of their elements.
    pub fn contents(&self) -> (contents: &Vec<FeedItem>)
        ensures
            records_view(contents@) == self@.contents,
    {
        &self.contents
    }

    /// The key of the feed that this is the outcome of.
    pub fn key(&self) -> (key: &String)
        ensures
            key@ == self@.key,
    {
        &self.key
    }
}

} // verus!
