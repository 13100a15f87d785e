//! The rules document: which ledger account stands for a payee or a fund.

use crate::error::{Error, Failure};
use crate::session::{next, EditAction, EditState, Report};
use crate::transaction::Transaction;
use toml_edit::{table, value, Document, Item, Key, TomlError};
use vstd::prelude::*;
use vstd::string::*;

verus! {

/// `toml_edit::Document`: a TOML document that keeps its comments and layout.
/// The verifier sees nothing inside it.
#[verifier::external_type_specification]
#[verifier::external_body]
pub struct ExDocument(Document);

/// `toml_edit::TomlError`: why a text was refused. The verifier sees nothing
/// inside it.
#[verifier::external_type_specification]
#[verifier::external_body]
pub struct ExTomlError(TomlError);

/// A sequence of keys that leads from the root of a document to an item.
pub type Path = Seq<Seq<char>>;

/// What a document holds, by path: a path is in the domain when indexing the
/// document by its keys in turn reaches an item; the value is the item's text
/// where the item is a string, else `None`.
pub uninterp spec fn entries(doc: Document) -> Map<Seq<Seq<char>>, Option<Seq<char>>>;

/// Names under which the root of a document holds a table that is not inline.
pub uninterp spec fn tables(doc: Document) -> Set<Seq<char>>;

/// The text of a document, its tables in the order in which it holds them.
pub uninterp spec fn rendered(doc: Document) -> Seq<char>;

/// The text of a document, its tables in the order in which they were read.
pub uninterp spec fn rendered_in_order(doc: Document) -> Seq<char>;

/// Tables and entries of the document that a text writes, or `None` where the
/// text is not a TOML document.
pub uninterp spec fn toml_document(text: Seq<char>) -> Option<
    (Set<Seq<char>>, Map<Seq<Seq<char>>, Option<Seq<char>>>),
>;

/// The key under which a document files a name, or `None` where the name cannot
/// be written as a key.
pub uninterp spec fn toml_key(name: Seq<char>) -> Option<Seq<char>>;

/// A non-empty name of ASCII letters, digits, dashes and underscores.
pub open spec fn is_bare_key(name: Seq<char>) -> bool {
    &&& name.len() > 0
    &&& forall|i: int|
        0 <= i < name.len() ==> {
            let c = #[trigger] name[i];
            'A' <= c <= 'Z' || 'a' <= c <= 'z' || '0' <= c <= '9' || c == '-' || c == '_'
        }
}

/// The path at which a table files `name`.
pub open spec fn filed_at(section: Seq<char>, name: Seq<char>) -> Path {
    seq![section, toml_key(name)->0]
}

/// View of an optional text.
pub open spec fn text_view(t: Option<String>) -> Option<Seq<char>> {
    match t {
        Some(s) => Some(s@),
        None => None,
    }
}

/// The text that `entries` holds at `path`, if it holds one there.
pub open spec fn text_at(entries: Map<Path, Option<Seq<char>>>, path: Path) -> Option<Seq<char>> {
    if entries.dom().contains(path) {
        entries[path]
    } else {
        None
    }
}

/// `toml_edit`'s parser (`Document::from_str`): a text is either refused or read
/// into a document whose tables and entries depend on the text alone.
#[verifier::external_body]
fn parse_document(text: &str) -> (r: Result<Document, TomlError>)
    ensures
        match r {
            Ok(doc) => toml_document(text@) == Some((tables(doc), entries(doc))),
            Err(_) => toml_document(text@) is None,
        },
{
    text.parse::<Document>()
}

/// `Key::from_str` and `Key::get`: the key that a name is filed under.
#[verifier::external_body]
fn parse_key(name: &str) -> (r: Option<String>)
    ensures
        text_view(r) == toml_key(name@),
{
    name.parse::<Key>().ok().map(|k| k.get().to_owned())
}

/// `Item::is_table` on the root's item of that name (`Index<&str>` of
/// `Document` gives `Item::None` where there is none).
#[verifier::external_body]
fn is_table(doc: &Document, section: &str) -> (r: bool)
    ensures
        r == tables(*doc).contains(section@),
{
    doc[section].is_table()
}

/// `Item::is_none` on the item that `Index<&str>` reaches by two keys: whether
/// the document holds an item under exactly these keys.
#[verifier::external_body]
fn has_key(doc: &Document, section: &str, key: &str) -> (r: bool)
    ensures
        r == entries(*doc).dom().contains(seq![section@, key@]),
{
    !doc[section][key].is_none()
}

/// `Item::as_str` on the item that `Index<&str>` reaches by two keys.
#[verifier::external_body]
fn text_at_key(doc: &Document, section: &str, key: &str) -> (r: Option<String>)
    ensures
        text_view(r) == text_at(entries(*doc), seq![section@, key@]),
{
    doc[section][key].as_str().map(|s| s.to_owned())
}

/// `Item::as_str` on the item that `Index<&str>` reaches by three keys.
#[verifier::external_body]
fn text_at_field(doc: &Document, section: &str, key: &str, field: &str) -> (r: Option<String>)
    ensures
        text_view(r) == text_at(entries(*doc), seq![section@, key@, field@]),
{
    doc[section][key][field].as_str().map(|s| s.to_owned())
}

/// `Table::entry` on the root and `Item::or_insert` with `table()`: where the
/// root holds nothing under the name, an empty table is put there; else the
/// document stays as it is. `entry` panics on a name that is no key, and files
/// a bare name under itself.
#[verifier::external_body]
fn add_table(doc: &mut Document, section: &str)
    requires
        is_bare_key(section@),
    ensures
        entries(*old(doc)).dom().contains(seq![section@]) ==> *final(doc) == *old(doc),
        !entries(*old(doc)).dom().contains(seq![section@]) ==> {
            &&& tables(*final(doc)) == tables(*old(doc)).insert(section@)
            &&& entries(*final(doc)) == entries(*old(doc)).insert(seq![section@], None)
        },
{
    doc.as_table_mut().entry(section).or_insert(table());
}

/// `Table::entry` on the root's table of that name and `Item::or_insert` with
/// `value("")`: where the table holds nothing under the key that `name` is filed
/// under, the empty text is put there; else the document stays as it is. `entry`
/// panics on a name that is no key, and finds the table of a bare name under
/// that name.
#[verifier::external_body]
fn add_key(doc: &mut Document, section: &str, name: &str)
    requires
        tables(*old(doc)).contains(section@),
        is_bare_key(section@),
        toml_key(name@) is Some,
    ensures
        entries(*old(doc)).dom().contains(filed_at(section@, name@)) ==> *final(doc) == *old(doc),
        !entries(*old(doc)).dom().contains(filed_at(section@, name@)) ==> {
            &&& tables(*final(doc)) == tables(*old(doc))
            &&& entries(*final(doc)) == entries(*old(doc)).insert(
                filed_at(section@, name@),
                Some(Seq::empty()),
            )
        },
{
    if let Item::Table(t) = doc.as_table_mut().entry(section) {
        t.entry(name).or_insert(value(""));
    }
}

/// `Display` of `Document`.
#[verifier::external_body]
fn document_text(doc: &Document) -> (r: String)
    ensures
        r@ == rendered(*doc),
{
    doc.to_string()
}

/// `Document::to_string_in_original_order`.
#[verifier::external_body]
fn document_text_in_order(doc: &Document) -> (r: String)
    ensures
        r@ == rendered_in_order(*doc),
{
    doc.to_string_in_original_order()
}

/// Name of the table of payees.
pub open spec fn payee_section() -> Seq<char> {
    "payee"@
}

/// Name of the table of funds.
pub open spec fn fund_section() -> Seq<char> {
    "fund"@
}

/// Key of a payee's account where the payee is given as a table.
pub open spec fn account_field() -> Seq<char> {
    "account"@
}

/// Key of a payee's display name where the payee is given as a table.
pub open spec fn alias_field() -> Seq<char> {
    "alias"@
}

/// Mathematical view of the rules: the tables and entries of the document, and
/// whether a merge has added a key since the document was read.
pub struct RuleBook {
    pub tables: Set<Seq<char>>,
    pub entries: Map<Path, Option<Seq<char>>>,
    pub dirty: bool,
}

impl RuleBook {
    /// The account that the rules give a payee: the text under the payee's name
    /// in the table of payees, or the `account` of the table that stands there.
    pub open spec fn payee_account(self, payee: Seq<char>) -> Option<Seq<char>> {
        if !self.tables.contains(payee_section()) {
            None
        } else if text_at(self.entries, seq![payee_section(), payee]) is Some {
            text_at(self.entries, seq![payee_section(), payee])
        } else {
            text_at(self.entries, seq![payee_section(), payee, account_field()])
        }
    }

    /// The name under which the rules show a payee, if they give one.
    pub open spec fn payee_alias(self, payee: Seq<char>) -> Option<Seq<char>> {
        if !self.tables.contains(payee_section()) {
            None
        } else {
            text_at(self.entries, seq![payee_section(), payee, alias_field()])
        }
    }

    /// The account that the rules give a fund; an empty text counts as none.
    pub open spec fn fund_account(self, fund: Seq<char>) -> Option<Seq<char>> {
        if !self.tables.contains(fund_section()) {
            None
        } else {
            match text_at(self.entries, seq![fund_section(), fund]) {
                Some(account) => if account.len() > 0 {
                    Some(account)
                } else {
                    None
                },
                None => None,
            }
        }
    }

    /// The rules once `section` is a table of theirs, if nothing else has the name.
    pub open spec fn with_table(self, section: Seq<char>) -> RuleBook {
        if self.entries.dom().contains(seq![section]) {
            self
        } else {
            RuleBook {
                tables: self.tables.insert(section),
                entries: self.entries.insert(seq![section], None),
                dirty: self.dirty,
            }
        }
    }

    /// The rules once `name` has been seen in `section`: as they were where the
    /// table holds an entry under the key that `name` is filed under; else dirty,
    /// and with an empty placeholder under that key.
    pub open spec fn with_key(self, section: Seq<char>, name: Seq<char>) -> RuleBook {
        if self.entries.dom().contains(filed_at(section, name)) {
            self
        } else {
            RuleBook {
                tables: self.tables,
                entries: self.entries.insert(filed_at(section, name), Some(Seq::empty())),
                dirty: true,
            }
        }
    }

    /// The rules after the names `names[i..]` have been seen in `section`, with the
    /// failure that stopped the merge, if any: that of the accessor, or
    /// `InvalidKey` for a name that cannot be a key. Empty names are passed over.
    pub open spec fn with_keys(
        self,
        section: Seq<char>,
        names: Seq<Result<Seq<char>, Failure>>,
        i: int,
    ) -> (RuleBook, Result<(), Failure>)
        decreases names.len() - i,
    {
        if i < 0 || i >= names.len() {
            (self, Ok(()))
        } else {
            match names[i] {
                Err(e) => (self, Err(e)),
                Ok(name) => if name.len() == 0 {
                    self.with_keys(section, names, i + 1)
                } else if toml_key(name) is None {
                    (self, Err(Failure::InvalidKey { key: name }))
                } else {
                    self.with_key(section, name).with_keys(section, names, i + 1)
                },
            }
        }
    }

    /// The rules after `names` have been merged into `section`. Where the name of
    /// the section is taken by something that is no table, nothing is merged.
    pub open spec fn with_section(
        self,
        section: Seq<char>,
        names: Seq<Result<Seq<char>, Failure>>,
    ) -> (RuleBook, Result<(), Failure>) {
        let book = self.with_table(section);
        if book.tables.contains(section) {
            book.with_keys(section, names, 0)
        } else {
            (book, Ok(()))
        }
    }

    /// The rules after the funds and then the payees of a list of transactions
    /// have been merged.
    pub open spec fn merged(
        self,
        funds: Seq<Result<Seq<char>, Failure>>,
        payees: Seq<Result<Seq<char>, Failure>>,
    ) -> (RuleBook, Result<(), Failure>) {
        let (book, outcome) = self.with_section(fund_section(), funds);
        if outcome is Err {
            (book, outcome)
        } else {
            book.with_section(payee_section(), payees)
        }
    }
}

/// Each of `names[i..]` is given without failure and, unless it is empty, can be
/// a key, and the rules hold an entry in `section` under the key that it is
/// filed under.
pub open spec fn filed(
    book: RuleBook,
    section: Seq<char>,
    names: Seq<Result<Seq<char>, Failure>>,
    i: int,
) -> bool {
    forall|j: int|
        i <= j < names.len() ==> ((#[trigger] names[j]) matches Ok(name) && (name.len() == 0 || (
        toml_key(name) is Some && book.entries.dom().contains(filed_at(section, name)))))
}

/// Whatever `before` holds, `after` holds at the same path.
pub open spec fn keeps_entries(before: RuleBook, after: RuleBook) -> bool {
    forall|p: Path| #[trigger]
        before.entries.dom().contains(p) ==> after.entries.dom().contains(p) && after.entries[p]
            == before.entries[p]
}

/// Merging names leaves the tables and the entries that were there; where it
/// succeeds, it leaves an entry for each name.
proof fn lemma_with_keys_files(
    book: RuleBook,
    section: Seq<char>,
    names: Seq<Result<Seq<char>, Failure>>,
    i: int,
)
    requires
        0 <= i <= names.len(),
    ensures
        book.with_keys(section, names, i).0.tables == book.tables,
        keeps_entries(book, book.with_keys(section, names, i).0),
        book.with_keys(section, names, i).1 is Ok ==> filed(
            book.with_keys(section, names, i).0,
            section,
            names,
            i,
        ),
    decreases names.len() - i,
{
    if i < names.len() {
        match names[i] {
            Err(_) => {},
            Ok(name) => {
                if name.len() == 0 {
                    lemma_with_keys_files(book, section, names, i + 1);
                } else if toml_key(name) is Some {
                    let step = book.with_key(section, name);
                    lemma_with_keys_files(step, section, names, i + 1);
                    assert(step.entries.dom().contains(filed_at(section, name)));
                    assert(keeps_entries(book, step));
                }
            },
        }
    }
}

/// Merging names that the rules already hold changes nothing.
proof fn lemma_with_keys_settled(
    book: RuleBook,
    section: Seq<char>,
    names: Seq<Result<Seq<char>, Failure>>,
    i: int,
)
    requires
        0 <= i <= names.len(),
        filed(book, section, names, i),
    ensures
        book.with_keys(section, names, i) == (book, Ok::<(), Failure>(())),
    decreases names.len() - i,
{
    if i < names.len() {
        assert(names[i] is Ok);
        lemma_with_keys_settled(book, section, names, i + 1);
    }
}

/// What one section of a merge leaves behind.
proof fn lemma_with_section_files(
    book: RuleBook,
    section: Seq<char>,
    names: Seq<Result<Seq<char>, Failure>>,
)
    ensures
        book.with_section(section, names).0.entries.dom().contains(seq![section]),
        book.with_section(section, names).0.tables == book.with_table(section).tables,
        keeps_entries(book, book.with_section(section, names).0),
        book.with_section(section, names).1 is Ok && book.with_section(
            section,
            names,
        ).0.tables.contains(section) ==> filed(
            book.with_section(section, names).0,
            section,
            names,
            0,
        ),
{
    let opened = book.with_table(section);
    assert(keeps_entries(book, opened));
    assert(opened.entries.dom().contains(seq![section]));
    if opened.tables.contains(section) {
        lemma_with_keys_files(opened, section, names, 0);
    }
}

/// `after` holds an entry in a table where `before` holds none.
pub open spec fn adds_key(before: RuleBook, after: RuleBook) -> bool {
    exists|p: Path|
        #[trigger] after.entries.dom().contains(p) && p.len() == 2 && !before.entries.dom().contains(
            p,
        )
}

/// Merging names marks the rules dirty exactly when it adds an entry.
proof fn lemma_with_keys_marks(
    book: RuleBook,
    section: Seq<char>,
    names: Seq<Result<Seq<char>, Failure>>,
    i: int,
)
    requires
        0 <= i <= names.len(),
    ensures
        book.with_keys(section, names, i).0.dirty == (book.dirty || adds_key(
            book,
            book.with_keys(section, names, i).0,
        )),
    decreases names.len() - i,
{
    let after = book.with_keys(section, names, i).0;
    lemma_with_keys_files(book, section, names, i);
    if i < names.len() {
        match names[i] {
            Err(_) => {},
            Ok(name) => {
                if name.len() == 0 {
                    lemma_with_keys_marks(book, section, names, i + 1);
                } else if toml_key(name) is Some {
                    let step = book.with_key(section, name);
                    lemma_with_keys_marks(step, section, names, i + 1);
                    lemma_with_keys_files(step, section, names, i + 1);
                    if step != book {
                        let path = filed_at(section, name);
                        assert(step.entries.dom().contains(path));
                        assert(after.entries.dom().contains(path) && path.len() == 2);
                    }
                }
            },
        }
    }
}

/// The rules are dirty after a merge exactly when they were dirty before it or
/// the merge has added an entry to one of the two tables.
pub proof fn lemma_dirty_marks_additions(
    book: RuleBook,
    funds: Seq<Result<Seq<char>, Failure>>,
    payees: Seq<Result<Seq<char>, Failure>>,
)
    ensures
        book.merged(funds, payees).0.dirty == (book.dirty || adds_key(
            book,
            book.merged(funds, payees).0,
        )),
{
    let opened = book.with_table(fund_section());
    let first = book.with_section(fund_section(), funds).0;
    lemma_with_section_files(book, fund_section(), funds);
    if opened.tables.contains(fund_section()) {
        lemma_with_keys_marks(opened, fund_section(), funds, 0);
    }
    assert(first.dirty == (book.dirty || adds_key(book, first))) by {
        if adds_key(opened, first) {
            let p = choose|p: Path|
                #[trigger] first.entries.dom().contains(p) && p.len() == 2
                    && !opened.entries.dom().contains(p);
            assert(!book.entries.dom().contains(p));
        }
        if adds_key(book, first) {
            let p = choose|p: Path|
                #[trigger] first.entries.dom().contains(p) && p.len() == 2
                    && !book.entries.dom().contains(p);
            assert(!opened.entries.dom().contains(p));
        }
    }
    if book.with_section(fund_section(), funds).1 is Ok {
        let reopened = first.with_table(payee_section());
        let after = first.with_section(payee_section(), payees).0;
        lemma_with_section_files(first, payee_section(), payees);
        if reopened.tables.contains(payee_section()) {
            lemma_with_keys_marks(reopened, payee_section(), payees, 0);
        }
        assert(after.dirty == (first.dirty || adds_key(first, after))) by {
            if adds_key(reopened, after) {
                let p = choose|p: Path|
                    #[trigger] after.entries.dom().contains(p) && p.len() == 2
                        && !reopened.entries.dom().contains(p);
                assert(!first.entries.dom().contains(p));
            }
            if adds_key(first, after) {
                let p = choose|p: Path|
                    #[trigger] after.entries.dom().contains(p) && p.len() == 2
                        && !first.entries.dom().contains(p);
                assert(!reopened.entries.dom().contains(p));
            }
        }
        if adds_key(book, first) {
            let p = choose|p: Path|
                #[trigger] first.entries.dom().contains(p) && p.len() == 2
                    && !book.entries.dom().contains(p);
            assert(after.entries.dom().contains(p));
        }
        if adds_key(first, after) {
            let p = choose|p: Path|
                #[trigger] after.entries.dom().contains(p) && p.len() == 2
                    && !first.entries.dom().contains(p);
            assert(!book.entries.dom().contains(p));
        }
        if adds_key(book, after) && !adds_key(book, first) {
            let p = choose|p: Path|
                #[trigger] after.entries.dom().contains(p) && p.len() == 2
                    && !book.entries.dom().contains(p);
            assert(!first.entries.dom().contains(p));
        }
    }
}

/// A section that was merged before is merged again without change.
proof fn lemma_with_section_settled(
    book: RuleBook,
    section: Seq<char>,
    names: Seq<Result<Seq<char>, Failure>>,
)
    requires
        book.entries.dom().contains(seq![section]),
        book.tables.contains(section) ==> filed(book, section, names, 0),
    ensures
        book.with_section(section, names) == (book, Ok::<(), Failure>(())),
{
    if book.tables.contains(section) {
        lemma_with_keys_settled(book, section, names, 0);
    }
}

/// The two tables have different names.
proof fn lemma_sections_differ()
    ensures
        fund_section() != payee_section(),
{
    reveal_strlit("fund");
    reveal_strlit("payee");
    assert(fund_section().len() == 4);
    assert(payee_section().len() == 5);
}

/// A merge never takes away or changes what the rules hold, and where it
/// succeeds, every fund and payee that was merged was given without failure and,
/// unless it is empty, has an entry under the key that it is filed under, in
/// each of the two tables that is a table of the document.
pub proof fn lemma_merge_files_every_name(
    book: RuleBook,
    funds: Seq<Result<Seq<char>, Failure>>,
    payees: Seq<Result<Seq<char>, Failure>>,
)
    ensures
        keeps_entries(book, book.merged(funds, payees).0),
        book.merged(funds, payees).1 is Ok ==> {
            let after = book.merged(funds, payees).0;
            &&& after.tables.contains(fund_section()) ==> filed(after, fund_section(), funds, 0)
            &&& after.tables.contains(payee_section()) ==> filed(
                after,
                payee_section(),
                payees,
                0,
            )
        },
{
    lemma_sections_differ();
    let first = book.with_section(fund_section(), funds).0;
    lemma_with_section_files(book, fund_section(), funds);
    if book.with_section(fund_section(), funds).1 is Ok {
        let after = first.with_section(payee_section(), payees).0;
        lemma_with_section_files(first, payee_section(), payees);
        assert(keeps_entries(book, after));
        assert(after.tables.contains(fund_section()) == first.tables.contains(fund_section()));
        if first.with_section(payee_section(), payees).1 is Ok && after.tables.contains(
            fund_section(),
        ) {
            assert forall|j: int| 0 <= j < funds.len() implies ((#[trigger] funds[j]) matches Ok(
                name,
            ) && (name.len() == 0 || (toml_key(name) is Some && after.entries.dom().contains(
                filed_at(fund_section(), name),
            )))) by {
                let name = funds[j]->Ok_0;
                if name.len() > 0 {
                    assert(first.entries.dom().contains(filed_at(fund_section(), name)));
                }
            }
        }
    }
}

/// Merging is idempotent: once a list of names has been merged and the rules are
/// clean again, as they are when the document has been saved and read anew,
/// merging the same names succeeds, changes neither the tables nor the entries
/// and leaves the rules clean.
pub proof fn lemma_merge_is_idempotent(
    book: RuleBook,
    funds: Seq<Result<Seq<char>, Failure>>,
    payees: Seq<Result<Seq<char>, Failure>>,
)
    ensures
        book.merged(funds, payees).1 is Ok ==> {
            let once = book.merged(funds, payees).0;
            let clean = RuleBook { tables: once.tables, entries: once.entries, dirty: false };
            clean.merged(funds, payees) == (clean, Ok::<(), Failure>(()))
        },
{
    if book.merged(funds, payees).1 is Ok {
        lemma_with_section_files(book, fund_section(), funds);
        let first = book.with_section(fund_section(), funds).0;
        lemma_with_section_files(first, payee_section(), payees);
        lemma_merge_files_every_name(book, funds, payees);
        let once = book.merged(funds, payees).0;
        let clean = RuleBook { tables: once.tables, entries: once.entries, dirty: false };
        assert(clean.tables.contains(fund_section()) ==> filed(clean, fund_section(), funds, 0));
        assert(clean.tables.contains(payee_section()) ==> filed(
            clean,
            payee_section(),
            payees,
            0,
        ));
        lemma_with_section_settled(clean, fund_section(), funds);
        lemma_with_section_settled(clean, payee_section(), payees);
    }
}

/// What the `fund` accessor gives for each of `transactions`.
pub open spec fn funds_of<T: Transaction>(transactions: Seq<T>) -> Seq<Result<Seq<char>, Failure>> {
    Seq::new(transactions.len(), |i: int| transactions[i].spec_fund())
}

/// What the `payee` accessor gives for each of `transactions`.
pub open spec fn payees_of<T: Transaction>(transactions: Seq<T>) -> Seq<
    Result<Seq<char>, Failure>,
> {
    Seq::new(transactions.len(), |i: int| transactions[i].spec_payee())
}

/// View of the outcome of an operation that returns nothing.
pub open spec fn unit_outcome(r: Result<(), Error>) -> Result<(), Failure> {
    match r {
        Ok(_) => Ok(()),
        Err(e) => Err(e@),
    }
}

/// The rules document together with the mark that a merge has added keys to it.
pub struct Rules {
    content: Document,
    is_dirty: bool,
}

impl View for Rules {
    type V = RuleBook;

    closed spec fn view(&self) -> RuleBook {
        RuleBook {
            tables: tables(self.content),
            entries: entries(self.content),
            dirty: self.is_dirty,
        }
    }
}

/// Which of the two tables a merge fills.
enum Section {
    Fund,
    Payee,
}

impl Section {
    spec fn name(self) -> Seq<char> {
        match self {
            Section::Fund => fund_section(),
            Section::Payee => payee_section(),
        }
    }

    spec fn names_of<T: Transaction>(self, transactions: Seq<T>) -> Seq<
        Result<Seq<char>, Failure>,
    > {
        match self {
            Section::Fund => funds_of(transactions),
            Section::Payee => payees_of(transactions),
        }
    }
}

impl Rules {
    /// The text of the document, its tables in the order in which it holds them.
    pub closed spec fn text(&self) -> Seq<char> {
        rendered(self.content)
    }

    /// The text of the document, its tables in the order in which they were read.
    pub closed spec fn text_in_order(&self) -> Seq<char> {
        rendered_in_order(self.content)
    }

    /// Reads the rules from the text of a document. Fails with
    /// [`Error::InvalidRules`] where the text is not a TOML document.
    pub fn from_str(s: &str) -> (r: Result<Rules, Error>)
        ensures
            match r {
                Ok(rules) => toml_document(s@) == Some((rules@.tables, rules@.entries))
                    && !rules@.dirty,
                Err(e) => toml_document(s@) is None && e@ == Failure::InvalidRules,
            },
    {
        match parse_document(s) {
            Ok(content) => Ok(Rules { content, is_dirty: false }),
            Err(_) => Err(Error::InvalidRules),
        }
    }

    /// Whether a merge has added a key since the document was read.
    pub fn is_dirty(&self) -> (r: bool)
        ensures
            r == self@.dirty,
    {
        self.is_dirty
    }

    /// The text of the document, its tables in the order in which it holds them.
    pub fn content(&self) -> (r: String)
        ensures
            r@ == self.text(),
    {
        document_text(&self.content)
    }

    /// The text to save: the document with its tables in the order in which they
    /// were read.
    pub fn content_in_order(&self) -> (r: String)
        ensures
            r@ == self.text_in_order(),
    {
        document_text_in_order(&self.content)
    }

    /// The account that the rules give `payee`.
    pub fn get_payee_account(&self, payee: &str) -> (r: Option<String>)
        ensures
            text_view(r) == self@.payee_account(payee@),
    {
        if !is_table(&self.content, "payee") {
            return None;
        }
        match text_at_key(&self.content, "payee", payee) {
            Some(account) => Some(account),
            None => text_at_field(&self.content, "payee", payee, "account"),
        }
    }

    /// The name under which the rules show `payee`.
    pub fn get_payee_alias(&self, payee: &str) -> (r: Option<String>)
        ensures
            text_view(r) == self@.payee_alias(payee@),
    {
        if !is_table(&self.content, "payee") {
            return None;
        }
        text_at_field(&self.content, "payee", payee, "alias")
    }

    /// The account that the rules give `fund`, unless it is empty.
    pub fn get_fund_account(&self, fund: &str) -> (r: Option<String>)
        ensures
            text_view(r) == self@.fund_account(fund@),
    {
        if !is_table(&self.content, "fund") {
            return None;
        }
        match text_at_key(&self.content, "fund", fund) {
            Some(account) => if account.as_str().unicode_len() > 0 {
                Some(account)
            } else {
                None
            },
            None => None,
        }
    }

    /// Sees to it that `section` is a table of the document, where its name is
    /// free, and files in it every non-empty name that the transactions give.
    fn merge_to_table<T: Transaction>(&mut self, transactions: &Vec<T>, section: Section) -> (r:
        Result<(), Error>)
        ensures
            (final(self)@, unit_outcome(r)) == old(self)@.with_section(
                section.name(),
                section.names_of(transactions@),
            ),
            keeps_entries(old(self)@, final(self)@),
            final(self)@.entries.dom() == old(self)@.entries.dom() ==> final(self).content == old(
                self,
            ).content,
    {
        let name = match section {
            Section::Fund => "fund",
            Section::Payee => "payee",
        };
        proof {
            reveal_strlit("fund");
            reveal_strlit("payee");
            assert(is_bare_key(name@));
        }
        let ghost names = section.names_of(transactions@);
        let ghost before = self@;
        let ghost before_doc = self.content;
        add_table(&mut self.content, name);
        if !is_table(&self.content, name) {
            return Ok(());
        }
        let ghost start = self@;
        let ghost mut added: Option<Path> = if entries(before_doc).dom().contains(seq![name@]) {
            None
        } else {
            Some(seq![name@])
        };
        let mut i: usize = 0;
        while i < transactions.len()
            invariant
                i <= transactions.len(),
                before_doc == old(self).content,
                before == old(self)@,
                start == before.with_table(name@),
                start.tables.contains(name@),
                names == section.names_of(transactions@),
                name@ == section.name(),
                is_bare_key(name@),
                tables(self.content).contains(name@),
                self@.with_keys(name@, names, i as int) == start.with_keys(name@, names, 0),
                keeps_entries(before, self@),
                added is None ==> self.content == before_doc,
                added matches Some(p) ==> entries(self.content).dom().contains(p) && !entries(
                    before_doc,
                ).dom().contains(p),
            decreases transactions.len() - i,
        {
            let given = match section {
                Section::Fund => transactions[i].fund(),
                Section::Payee => transactions[i].payee(),
            };
            let key = match given {
                Ok(key) => key,
                Err(e) => {
                    return Err(e);
                },
            };
            if !key.as_str().is_empty() {
                let filed = match parse_key(key.as_str()) {
                    Some(filed) => filed,
                    None => {
                        return Err(Error::InvalidKey { key });
                    },
                };
                if !has_key(&self.content, name, filed.as_str()) {
                    let ghost path = filed_at(name@, key@);
                    self.is_dirty = true;
                    add_key(&mut self.content, name, key.as_str());
                    proof {
                        if added is None {
                            added = Some(path);
                        }
                    }
                }
            }
            i = i + 1;
        }
        Ok(())
    }

    /// Adds to the document, with an empty account, every fund and payee of
    /// `transactions` that it does not hold yet, each under the key that the
    /// document files the name under, and marks the rules dirty where it adds
    /// one. Empty names are passed over. Stops at the first
    /// transaction whose accessor fails, with that failure, or whose name cannot
    /// be a key of the document, with [`Error::InvalidKey`]; what was added before
    /// stays. No entry that was there is changed, and where none is added the
    /// document keeps its text.
    pub fn merge<T: Transaction>(&mut self, transactions: &Vec<T>) -> (r: Result<(), Error>)
        ensures
            (final(self)@, unit_outcome(r)) == old(self)@.merged(
                funds_of(transactions@),
                payees_of(transactions@),
            ),
            keeps_entries(old(self)@, final(self)@),
            final(self)@.entries.dom() == old(self)@.entries.dom() ==> final(self).text() == old(
                self,
            ).text() && final(self).text_in_order() == old(self).text_in_order(),
    {
        let ghost before = self.content;
        match self.merge_to_table(transactions, Section::Fund) {
            Ok(_) => {},
            Err(e) => {
                return Err(e);
            },
        }
        let ghost between = self.content;
        let r = self.merge_to_table(transactions, Section::Payee);
        proof {
            if entries(self.content).dom() == entries(before).dom() {
                assert(entries(between).dom() =~= entries(before).dom());
            }
        }
        r
    }

    /// Merges `transactions` into the rules and says what is to be done before
    /// the ledger may be printed: to ask the operator, where the merge has left
    /// the rules dirty, or nothing. Fails as [`Rules::merge`] does.
    pub fn merge_with_edit<T: Transaction>(&mut self, transactions: &Vec<T>) -> (r: Result<
        (EditState, EditAction),
        Error,
    >)
        ensures
            final(self)@ == old(self)@.merged(funds_of(transactions@), payees_of(transactions@)).0,
            match r {
                Ok(step) => old(self)@.merged(funds_of(transactions@), payees_of(transactions@)).1
                    is Ok && next(EditState::Start, Report::Merged { dirty: final(self)@.dirty })
                    == Some(step),
                Err(e) => old(self)@.merged(funds_of(transactions@), payees_of(transactions@)).1
                    == Err::<(), Failure>(e@),
            },
    {
        match self.merge(transactions) {
            Ok(_) => if self.is_dirty {
                Ok((EditState::Prompting, EditAction::Prompt))
            } else {
                Ok((EditState::Done, EditAction::Render))
            },
            Err(e) => Err(e),
        }
    }

    /// Takes the document anew from its text, as after an edit, and marks the
    /// rules clean. Where the text is not a TOML document the rules stay as they
    /// are and the call fails with [`Error::InvalidRules`].
    pub fn reload(&mut self, s: &str) -> (r: Result<(), Error>)
        ensures
            match r {
                Ok(_) => toml_document(s@) == Some((final(self)@.tables, final(self)@.entries))
                    && !final(self)@.dirty,
                Err(e) => toml_document(s@) is None && e@ == Failure::InvalidRules && *final(self)
                    == *old(self),
            },
    {
        match parse_document(s) {
            Ok(content) => {
                self.content = content;
                self.is_dirty = false;
                Ok(())
            },
            Err(_) => Err(Error::InvalidRules),
        }
    }
}

} // verus!