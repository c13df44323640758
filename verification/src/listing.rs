//! `ls`: the entries of a directory, one on a line, in ascending order.

use vstd::multiset::Multiset;
use vstd::prelude::*;
use vstd::seq_lib::{lemma_multiset_commutative, to_multiset_build, to_multiset_remove};
use vstd::string::*;
use crate::arguments::{operand, operand_or};
use crate::order::{in_order, lemma_in_order_of_permutation, lemma_in_order_sorted, sort};

verus! {

/// What the file system says an entry is.
#[derive(Clone, Debug, PartialEq, Eq)]
pub enum EntryKind {
    /// A directory.
    Directory,
    /// Anything that is no directory.
    Other,
    /// It could not be told: the cause. Such an entry is listed as if it were
    /// no directory.
    Unknown(String),
}

/// The view of `EntryKind`: the same, with each text as its sequence of characters.
pub enum EntryKindView {
    Directory,
    Other,
    Unknown(Seq<char>),
}

impl DeepView for EntryKind {
    type V = EntryKindView;

    open spec fn deep_view(&self) -> EntryKindView {
        match self {
            EntryKind::Directory => EntryKindView::Directory,
            EntryKind::Other => EntryKindView::Other,
            EntryKind::Unknown(cause) => EntryKindView::Unknown(cause@),
        }
    }
}

/// One step of going through a directory.
#[derive(Clone, Debug, PartialEq, Eq)]
pub enum Entry {
    /// An entry: its name, or `None` where the name is no valid text, and
    /// its kind.
    Found { name: Option<String>, kind: EntryKind },
    /// The entry could not be read: the cause.
    Unreadable(String),
}

/// The view of `Entry`: the same, with each text as its sequence of characters.
pub enum EntryView {
    Found { name: Option<Seq<char>>, kind: EntryKindView },
    Unreadable(Seq<char>),
}

impl DeepView for Entry {
    type V = EntryView;

    open spec fn deep_view(&self) -> EntryView {
        match self {
            Entry::Found { name, kind } => EntryView::Found {
                name: name.deep_view(),
                kind: kind.deep_view(),
            },
            Entry::Unreadable(cause) => EntryView::Unreadable(cause@),
        }
    }
}

/// What became of opening a directory and going through it.
#[derive(Clone, Debug, PartialEq, Eq)]
pub enum Listing {
    /// It was opened: what going through it gave, step by step.
    Entries(Vec<Entry>),
    /// It could not be opened: the cause.
    OpenFailed(String),
}

/// The view of `Listing`: the same, with each text as its sequence of characters.
pub enum ListingView {
    Entries(Seq<EntryView>),
    OpenFailed(Seq<char>),
}

impl DeepView for Listing {
    type V = ListingView;

    open spec fn deep_view(&self) -> ListingView {
        match self {
            Listing::Entries(entries) => ListingView::Entries(entries.deep_view()),
            Listing::OpenFailed(cause) => ListingView::OpenFailed(cause@),
        }
    }
}

/// The line that lists `entry`: its name, with a `/` behind the name of a
/// directory. An entry that could not be read, or whose name is no valid
/// text, is not listed.
pub open spec fn entry_label(entry: EntryView) -> Option<Seq<char>> {
    match entry {
        EntryView::Found { name: Some(name), kind: EntryKindView::Directory } => Some(
            name.push('/'),
        ),
        EntryView::Found { name: Some(name), kind: _ } => Some(name),
        _ => None,
    }
}

/// What is printed about `entry` while the directory is gone through: a
/// line for each thing that failed on it, and nothing where nothing failed.
pub open spec fn entry_complaints(entry: EntryView) -> Seq<char> {
    match entry {
        EntryView::Unreadable(cause) => "Failed to read entry: "@ + cause + "\n"@,
        EntryView::Found { name, kind } => {
            let of_kind = match kind {
                EntryKindView::Unknown(cause) => "Failed to read file type: "@ + cause + "\n"@,
                _ => Seq::empty(),
            };
            let of_name = match name {
                None => "Failed to convert path to string\n"@,
                Some(_) => Seq::empty(),
            };
            of_kind + of_name
        },
    }
}

/// The labels of the entries that are listed, in the order of `entries`.
pub open spec fn labels(entries: Seq<EntryView>) -> Seq<Seq<char>>
    decreases entries.len(),
{
    if entries.len() == 0 {
        Seq::empty()
    } else {
        match entry_label(entries.last()) {
            Some(label) => labels(entries.drop_last()).push(label),
            None => labels(entries.drop_last()),
        }
    }
}

/// What is printed about the entries that something failed on, in the order
/// of `entries`.
pub open spec fn complaints(entries: Seq<EntryView>) -> Seq<char>
    decreases entries.len(),
{
    if entries.len() == 0 {
        Seq::empty()
    } else {
        complaints(entries.drop_last()) + entry_complaints(entries.last())
    }
}

/// The texts of `names`, each on a line of its own.
pub open spec fn lines(names: Seq<Seq<char>>) -> Seq<char>
    decreases names.len(),
{
    if names.len() == 0 {
        Seq::empty()
    } else {
        lines(names.drop_last()) + names.last() + "\n"@
    }
}

/// What `ls` prints for the directory at `path`. Where it could not be
/// opened, one line with the path and the cause, and no entry. Else a line
/// for each failure on an entry, in the order in which the entries came, and
/// after them the labels of the entries that are listed, in ascending order.
pub open spec fn ls_output(path: Seq<char>, listing: ListingView) -> Seq<char> {
    match listing {
        ListingView::OpenFailed(cause) => "Failed to open directory: "@ + path + ": "@ + cause
            + "\n"@,
        ListingView::Entries(entries) => complaints(entries) + lines(in_order(labels(entries))),
    }
}

/// The directory that `ls` lists: its operand, or `.` without one.
pub fn ls_path(args: &[String]) -> (path: String)
    ensures
        path@ == operand_or(args.deep_view(), "."@),
{
    match operand(args) {
        Some(text) => text.clone(),
        None => String::from_str("."),
    }
}

/// `ls`: the text to print, given as `listing` what became of opening the
/// directory at `ls_path(args)` and going through it.
pub fn ls(args: &[String], listing: &Listing) -> (out: String)
    ensures
        out@ == ls_output(operand_or(args.deep_view(), "."@), listing.deep_view()),
{
    let path = ls_path(args);
    match listing {
        Listing::OpenFailed(cause) => {
            let mut out = String::from_str("Failed to open directory: ");
            out.append(path.as_str());
            out.append(": ");
            out.append(cause.as_str());
            out.append("\n");
            out
        },
        Listing::Entries(entries) => {
            let mut out = String::new();
            let mut names: Vec<String> = Vec::new();
            let mut i: usize = 0;
            while i < entries.len()
                invariant
                    i <= entries.len(),
                    out@ == complaints(entries.deep_view().take(i as int)),
                    names.deep_view() == labels(entries.deep_view().take(i as int)),
                decreases entries.len() - i,
            {
                proof {
                    reveal_strlit("/");
                    assert(entries.deep_view().take(i + 1).drop_last() =~= entries.deep_view().take(
                        i as int,
                    ));
                }
                match &entries[i] {
                    Entry::Unreadable(cause) => {
                        out.append("Failed to read entry: ");
                        out.append(cause.as_str());
                        out.append("\n");
                    },
                    Entry::Found { name, kind } => {
                        let directory = match kind {
                            EntryKind::Directory => true,
                            EntryKind::Other => false,
                            EntryKind::Unknown(cause) => {
                                out.append("Failed to read file type: ");
                                out.append(cause.as_str());
                                out.append("\n");
                                false
                            },
                        };
                        match name {
                            Some(text) => {
                                let mut label = text.clone();
                                if directory {
                                    label.append("/");
                                }
                                names.push(label);
                                proof {
                                    assert(label@ =~= entry_label(
                                        entries[i as int].deep_view(),
                                    )->0);
                                }
                            },
                            None => {
                                out.append("Failed to convert path to string\n");
                            },
                        }
                    },
                }
                i = i + 1;
            }
            proof {
                assert(entries.deep_view().take(entries.len() as int) =~= entries.deep_view());
            }
            sort(&mut names);
            let mut k: usize = 0;
            let ghost head = out@;
            while k < names.len()
                invariant
                    k <= names.len(),
                    out@ == head + lines(names.deep_view().take(k as int)),
                decreases names.len() - k,
            {
                proof {
                    assert(names.deep_view().take(k + 1).drop_last() =~= names.deep_view().take(
                        k as int,
                    ));
                }
                out.append(names[k].as_str());
                out.append("\n");
                k = k + 1;
            }
            proof {
                assert(names.deep_view().take(names.len() as int) =~= names.deep_view());
            }
            out
        },
    }
}

/// The labels of two runs of entries, one after the other, are the labels of
/// the first followed by those of the second.
pub proof fn lemma_labels_of_concat(first: Seq<EntryView>, second: Seq<EntryView>)
    ensures
        labels(first + second) == labels(first) + labels(second),
    decreases second.len(),
{
    if second.len() > 0 {
        assert((first + second).drop_last() =~= first + second.drop_last());
        lemma_labels_of_concat(first, second.drop_last());
    }
}

spec fn label_count(entry: EntryView) -> Multiset<Seq<char>> {
    match entry_label(entry) {
        Some(label) => Multiset::singleton(label),
        None => Multiset::empty(),
    }
}

proof fn lemma_labels_without(entries: Seq<EntryView>, at: int)
    requires
        0 <= at < entries.len(),
    ensures
        labels(entries).to_multiset() == labels(entries.remove(at)).to_multiset().add(
            label_count(entries[at]),
        ),
{
    let before = entries.take(at);
    let one = seq![entries[at]];
    let after = entries.skip(at + 1);
    assert(entries =~= before + one + after);
    lemma_labels_of_concat(before, one);
    lemma_labels_of_concat(before + one, after);
    lemma_labels_of_concat(before, after);
    assert(labels(one.drop_last()) =~= Seq::<Seq<char>>::empty());
    assert(labels(one).to_multiset() =~= label_count(entries[at])) by {
        match entry_label(entries[at]) {
            Some(label) => {
                Seq::<Seq<char>>::empty().to_multiset_ensures();
                to_multiset_build(Seq::<Seq<char>>::empty(), label);
            },
            None => {
                labels(one).to_multiset_ensures();
            },
        }
    }
    lemma_multiset_commutative(labels(before), labels(one));
    lemma_multiset_commutative(labels(before) + labels(one), labels(after));
    lemma_multiset_commutative(labels(before), labels(after));
}

/// Entries that are the same but for their order have the same labels, each
/// equally often.
pub proof fn lemma_labels_of_permutation(a: Seq<EntryView>, b: Seq<EntryView>)
    requires
        a.to_multiset() == b.to_multiset(),
    ensures
        labels(a).to_multiset() == labels(b).to_multiset(),
    decreases a.len(),
{
    a.to_multiset_ensures();
    b.to_multiset_ensures();
    if a.len() > 0 {
        let last = a.len() - 1;
        let entry = a[last];
        assert(a.to_multiset().count(entry) > 0);
        let at = choose|k: int| 0 <= k < b.len() && b[k] == entry;
        to_multiset_remove(a, last);
        to_multiset_remove(b, at);
        lemma_labels_of_permutation(a.remove(last), b.remove(at));
        lemma_labels_without(a, last);
        lemma_labels_without(b, at);
    }
}

/// What is listed does not depend on the order in which the directory hands
/// out its entries: two runs through the same entries, in whatever order,
/// give the same lines in the same order.
pub proof fn lemma_listing_ignores_arrival_order(a: Seq<EntryView>, b: Seq<EntryView>)
    requires
        a.to_multiset() == b.to_multiset(),
    ensures
        lines(in_order(labels(a))) == lines(in_order(labels(b))),
{
    lemma_labels_of_permutation(a, b);
    lemma_in_order_of_permutation(labels(a), labels(b));
}

/// Where nothing is printed about any entry, nothing is printed about the
/// entries.
proof fn lemma_no_complaints(entries: Seq<EntryView>)
    requires
        forall|i: int| 0 <= i < entries.len() ==> entry_complaints(entries[i]) == Seq::<char>::empty(),
    ensures
        complaints(entries) == Seq::<char>::empty(),
    decreases entries.len(),
{
    if entries.len() > 0 {
        let rest = entries.drop_last();
        assert forall|i: int| 0 <= i < rest.len() implies entry_complaints(rest[i]) == Seq::<
            char,
        >::empty() by {}
        lemma_no_complaints(rest);
    }
}

/// Listing a directory twice gives the same text both times, in whatever
/// order its entries come each time, as long as nothing fails on an entry.
pub proof fn lemma_ls_output_ignores_arrival_order(
    path: Seq<char>,
    a: Seq<EntryView>,
    b: Seq<EntryView>,
)
    requires
        a.to_multiset() == b.to_multiset(),
        forall|i: int| 0 <= i < a.len() ==> entry_complaints(a[i]) == Seq::<char>::empty(),
    ensures
        ls_output(path, ListingView::Entries(a)) == ls_output(path, ListingView::Entries(b)),
{
    a.to_multiset_ensures();
    b.to_multiset_ensures();
    assert forall|k: int| 0 <= k < b.len() implies entry_complaints(b[k]) == Seq::<char>::empty() by {
        assert(b.to_multiset().count(b[k]) > 0);
    }
    lemma_no_complaints(a);
    lemma_no_complaints(b);
    lemma_listing_ignores_arrival_order(a, b);
}

/// Every line of the listing is the label of one of the entries: nothing is
/// listed that the directory did not hold.
pub proof fn lemma_listed_line_is_a_label(entries: Seq<EntryView>, line: Seq<char>)
    requires
        in_order(labels(entries)).contains(line),
    ensures
        exists|at: int| 0 <= at < entries.len() && entry_label(#[trigger] entries[at]) == Some(line),
{
    lemma_in_order_sorted(labels(entries));
    in_order(labels(entries)).to_multiset_ensures();
    labels(entries).to_multiset_ensures();
    assert(labels(entries).to_multiset().count(line) > 0);
    lemma_label_has_an_entry(entries, line);
}

proof fn lemma_label_has_an_entry(entries: Seq<EntryView>, line: Seq<char>)
    requires
        labels(entries).contains(line),
    ensures
        exists|at: int| 0 <= at < entries.len() && entry_label(#[trigger] entries[at]) == Some(line),
    decreases entries.len(),
{
    if entries.len() > 0 && entry_label(entries.last()) != Some(line) {
        let rest = entries.drop_last();
        let k = choose|k: int| 0 <= k < labels(entries).len() && labels(entries)[k] == line;
        assert(labels(rest)[k] == line);
        lemma_label_has_an_entry(rest, line);
        let at = choose|at: int|
            0 <= at < rest.len() && entry_label(#[trigger] rest[at]) == Some(line);
        assert(entries[at] == rest[at]);
    }
}

/// A directory whose name is valid text is listed, whatever its name holds,
/// as that name with one `/` behind it.
pub proof fn lemma_directory_is_marked(entries: Seq<EntryView>, at: int, name: Seq<char>)
    requires
        0 <= at < entries.len(),
        entries[at] == (EntryView::Found { name: Some(name), kind: EntryKindView::Directory }),
    ensures
        in_order(labels(entries)).contains(name.push('/')),
{
    lemma_labels_without(entries, at);
    assert(labels(entries).to_multiset().count(name.push('/')) > 0);
    lemma_in_order_sorted(labels(entries));
    in_order(labels(entries)).to_multiset_ensures();
}

/// An entry that is no directory, or whose kind could not be told, is
/// listed as its bare name where that is valid text.
pub proof fn lemma_other_entry_is_bare(
    entries: Seq<EntryView>,
    at: int,
    name: Seq<char>,
    kind: EntryKindView,
)
    requires
        0 <= at < entries.len(),
        entries[at] == (EntryView::Found { name: Some(name), kind }),
        !(kind is Directory),
    ensures
        in_order(labels(entries)).contains(name),
{
    lemma_labels_without(entries, at);
    assert(labels(entries).to_multiset().count(name) > 0);
    lemma_in_order_sorted(labels(entries));
    in_order(labels(entries)).to_multiset_ensures();
}

} // verus!
