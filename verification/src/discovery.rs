//! Finding the entry points of plugins in a directory listing.

use crate::error::joined;
use crate::text::{text_le, text_not_after, text_order_is_total};
use vstd::prelude::*;
use vstd::relations::{sorted_by, total_ordering};
use vstd::seq_lib::lemma_sorted_unique;
use vstd::string::*;

verus! {

/// What a directory entry is.
#[derive(Clone, Copy, Debug, PartialEq, Eq, Structural)]
pub enum EntryKind {
    /// A directory, and whether the file `<name>.rune` stands in it.
    Directory(bool),
    /// Anything else.
    File,
}

/// An entry of the plugin directory: its file name, where that is text, and
/// what it is.
#[derive(Debug)]
pub struct DirEntry {
    pub name: Option<String>,
    pub kind: EntryKind,
}

/// A directory entry as a mathematical value.
pub struct DirEntryView {
    pub name: Option<Seq<char>>,
    pub kind: EntryKind,
}

impl View for DirEntry {
    type V = DirEntryView;

    open spec fn view(&self) -> DirEntryView {
        DirEntryView {
            name: match self.name {
                Some(name) => Some(name@),
                None => None,
            },
            kind: self.kind,
        }
    }
}

/// The entry point of a plugin: the plugin's name, and whether the plugin is a
/// package, with a directory of its own, or a single file.
#[derive(Debug)]
pub struct EntryPoint {
    pub name: String,
    pub package: bool,
}

/// An entry point as a mathematical value.
pub struct EntryPointView {
    pub name: Seq<char>,
    pub package: bool,
}

impl View for EntryPoint {
    type V = EntryPointView;

    open spec fn view(&self) -> EntryPointView {
        EntryPointView { name: self.name@, package: self.package }
    }
}

/// Directory entries as mathematical values.
pub open spec fn entry_views(entries: Seq<DirEntry>) -> Seq<DirEntryView> {
    entries.map_values(|e: DirEntry| e@)
}

/// Entry points as mathematical values.
pub open spec fn point_views(points: Seq<EntryPoint>) -> Seq<EntryPointView> {
    points.map_values(|p: EntryPoint| p@)
}

/// The name of a plugin's file.
pub open spec fn plugin_file(name: Seq<char>) -> Seq<char> {
    name + ".rune"@
}

/// The plugin that a file belongs to, where it is a plugin's file: the file's
/// name without the extension. A name that is all extension has none.
pub open spec fn file_plugin(file: Seq<char>) -> Option<Seq<char>> {
    let n = file.len() - ".rune"@.len();
    if n > 0 && file.skip(n) == ".rune"@ {
        Some(file.take(n))
    } else {
        None
    }
}

/// The entry point that a directory entry holds, if any: `<name>.rune`, or
/// `<name>/<name>.rune`.
pub open spec fn entry_point(entry: DirEntryView) -> Option<EntryPointView> {
    match (entry.name, entry.kind) {
        (Some(name), EntryKind::Directory(true)) => Some(EntryPointView { name, package: true }),
        (Some(file), EntryKind::File) => match file_plugin(file) {
            Some(name) => Some(EntryPointView { name, package: false }),
            None => None,
        },
        _ => None,
    }
}

/// The path of an entry point, below the plugin directory.
pub open spec fn point_path(point: EntryPointView) -> Seq<char> {
    if point.package {
        point.name + "/"@ + plugin_file(point.name)
    } else {
        plugin_file(point.name)
    }
}

/// The entry points in a listing, in the order of the listing.
pub open spec fn found(entries: Seq<DirEntryView>) -> Seq<EntryPointView>
    decreases entries.len(),
{
    if entries.len() == 0 {
        Seq::empty()
    } else {
        match entry_point(entries.last()) {
            Some(point) => found(entries.drop_last()).push(point),
            None => found(entries.drop_last()),
        }
    }
}

/// The order of entry points: by name, and of one name the package, whose path
/// is `<name>/<name>.rune`, before the file, whose path is `<name>.rune`.
pub open spec fn point_le(a: EntryPointView, b: EntryPointView) -> bool {
    if a.name == b.name {
        a.package || !b.package
    } else {
        text_le(a.name, b.name)
    }
}

/// Whether entry points stand in order.
pub open spec fn in_order(points: Seq<EntryPointView>) -> bool {
    forall|i: int, j: int|
        0 <= i < j < points.len() ==> point_le(#[trigger] points[i], #[trigger] points[j])
}

/// Whether entry points are those of a listing, in order.
pub open spec fn discovered(entries: Seq<DirEntryView>, points: Seq<EntryPointView>) -> bool {
    &&& in_order(points)
    &&& points.to_multiset() == found(entries).to_multiset()
}

proof fn lemma_point_order(a: EntryPointView, b: EntryPointView, c: EntryPointView)
    ensures
        point_le(a, a),
        point_le(a, b) && point_le(b, a) ==> a == b,
        point_le(a, b) && point_le(b, c) ==> point_le(a, c),
        point_le(a, b) || point_le(b, a),
{
    text_order_is_total(a.name, b.name, c.name);
    text_order_is_total(c.name, b.name, a.name);
    text_order_is_total(b.name, c.name, a.name);
}

/// The name of a plugin's file.
pub fn plugin_file_name(name: &str) -> (r: String)
    ensures
        r@ == plugin_file(name@),
{
    joined(name, ".rune")
}

impl EntryPoint {
    /// The path of the entry point, below the plugin directory.
    pub fn relative_path(&self) -> (r: String)
        ensures
            r@ == point_path(self@),
    {
        let file = plugin_file_name(self.name.as_str());
        if self.package {
            joined(joined(self.name.as_str(), "/").as_str(), file.as_str())
        } else {
            file
        }
    }

    fn not_after(&self, other: &EntryPoint) -> (r: bool)
        ensures
            r == point_le(self@, other@),
    {
        if self.name == other.name {
            self.package || !other.package
        } else {
            text_not_after(self.name.as_str(), other.name.as_str())
        }
    }
}

/// The plugin that a file belongs to, where it is a plugin's file.
fn plugin_of_file(file: &str) -> (r: Option<String>)
    ensures
        match file_plugin(file@) {
            Some(name) => r is Some && r->Some_0@ == name,
            None => r is None,
        },
{
    let extension = ".rune";
    let n: usize = file.unicode_len();
    let k: usize = extension.unicode_len();
    if n <= k {
        return None;
    }
    let tail = file.substring_char(n - k, n).to_owned();
    proof {
        assert(file@.subrange(n - k, n as int) == file@.skip(n - k));
        assert(file@.subrange(0, n - k) == file@.take(n - k));
    }
    if tail == extension.to_owned() {
        Some(file.substring_char(0, n - k).to_owned())
    } else {
        None
    }
}

/// The entry point that a directory entry holds, if any.
pub fn entry_point_of(entry: &DirEntry) -> (r: Option<EntryPoint>)
    ensures
        match entry_point(entry@) {
            Some(point) => r is Some && r->Some_0@ == point,
            None => r is None,
        },
{
    match (&entry.name, &entry.kind) {
        (Some(name), EntryKind::Directory(true)) => Some(
            EntryPoint { name: name.clone(), package: true },
        ),
        (Some(file), EntryKind::File) => match plugin_of_file(file.as_str()) {
            Some(name) => Some(EntryPoint { name, package: false }),
            None => None,
        },
        _ => None,
    }
}

/// Puts an entry point into its place among entry points that stand in order.
fn insert_in_order(points: &mut Vec<EntryPoint>, point: EntryPoint)
    requires
        in_order(point_views(old(points)@)),
    ensures
        in_order(point_views(final(points)@)),
        point_views(final(points)@).to_multiset() == point_views(
            old(points)@,
        ).to_multiset().insert(point@),
{
    let ghost before = point_views(points@);
    let mut i: usize = 0;
    while i < points.len() && points[i].not_after(&point)
        invariant
            i <= points.len(),
            before == point_views(points@),
            forall|j: int| 0 <= j < i ==> point_le(#[trigger] before[j], point@),
        decreases points.len() - i,
    {
        assert(before[i as int] == points@[i as int]@);
        i = i + 1;
    }
    let ghost x = point@;
    points.insert(i, point);
    proof {
        let after = point_views(points@);
        assert(after =~= before.insert(i as int, x));
        vstd::seq_lib::to_multiset_insert(before, i as int, x);
        if i < before.len() {
            assert(!point_le(before[i as int], x));
            lemma_point_order(before[i as int], x, x);
        }
        assert forall|j: int| i <= j < before.len() implies point_le(
            x,
            #[trigger] before[j],
        ) by {
            lemma_point_order(x, before[i as int], before[j]);
        }
        assert forall|a: int, b: int| 0 <= a < b < after.len() implies point_le(
            #[trigger] after[a],
            #[trigger] after[b],
        ) by {
            let pa = if a < i {
                a
            } else {
                a - 1
            };
            let pb = if b < i {
                b
            } else {
                b - 1
            };
            if a != i {
                assert(after[a] == before[pa]);
            }
            if b != i {
                assert(after[b] == before[pb]);
            }
        }
    }
}

/// Discovers plugin entry points in a listing of the plugin directory:
/// `<dir>/<name>.rune` files and `<dir>/<name>/<name>.rune` packages, in
/// lexicographic order.
pub fn discover(entries: &Vec<DirEntry>) -> (r: Vec<EntryPoint>)
    ensures
        discovered(entry_views(entries@), point_views(r@)),
{
    let mut points: Vec<EntryPoint> = Vec::new();
    let ghost listing = entry_views(entries@);
    proof {
        assert(point_views(points@) =~= found(listing.take(0)));
    }
    let mut i: usize = 0;
    while i < entries.len()
        invariant
            i <= entries.len(),
            listing == entry_views(entries@),
            in_order(point_views(points@)),
            point_views(points@).to_multiset() == found(listing.take(i as int)).to_multiset(),
        decreases entries.len() - i,
    {
        proof {
            let next = listing.take(i + 1);
            assert(next.drop_last() == listing.take(i as int));
            assert(next.last() == entries@[i as int]@);
            vstd::seq_lib::to_multiset_build(
                found(listing.take(i as int)),
                entry_point(next.last())->Some_0,
            );
        }
        if let Some(point) = entry_point_of(&entries[i]) {
            insert_in_order(&mut points, point);
        }
        i = i + 1;
    }
    proof {
        assert(listing.take(listing.len() as int) == listing);
    }
    points
}

proof fn lemma_found_without(entries: Seq<DirEntryView>, i: int)
    requires
        0 <= i < entries.len(),
    ensures
        match entry_point(entries[i]) {
            Some(point) => found(entries).to_multiset() == found(
                entries.remove(i),
            ).to_multiset().insert(point),
            None => found(entries).to_multiset() == found(entries.remove(i)).to_multiset(),
        },
    decreases entries.len(),
{
    let rest = entries.drop_last();
    if i == rest.len() {
        assert(entries.remove(i) == rest);
        if let Some(point) = entry_point(entries[i]) {
            vstd::seq_lib::to_multiset_build(found(rest), point);
        }
    } else {
        lemma_found_without(rest, i);
        let without = entries.remove(i);
        assert(without.drop_last() == rest.remove(i));
        assert(without.last() == entries.last());
        if let Some(last) = entry_point(entries.last()) {
            vstd::seq_lib::to_multiset_build(found(rest), last);
            vstd::seq_lib::to_multiset_build(found(rest.remove(i)), last);
            if let Some(point) = entry_point(entries[i]) {
                let m = found(rest.remove(i)).to_multiset();
                assert(m.insert(point).insert(last) =~= m.insert(last).insert(point));
            }
        }
    }
}

proof fn lemma_found_of_permutation(a: Seq<DirEntryView>, b: Seq<DirEntryView>)
    requires
        a.to_multiset() == b.to_multiset(),
    ensures
        found(a).to_multiset() == found(b).to_multiset(),
    decreases a.len(),
{
    vstd::seq_lib::to_multiset_len(a);
    vstd::seq_lib::to_multiset_len(b);
    if a.len() > 0 {
        let x = a.last();
        let last = a.len() - 1;
        assert(a.contains(x));
        vstd::seq_lib::to_multiset_contains(a, x);
        vstd::seq_lib::to_multiset_contains(b, x);
        let i = choose|i: int| 0 <= i < b.len() && b[i] == x;
        vstd::seq_lib::to_multiset_remove(a, last);
        vstd::seq_lib::to_multiset_remove(b, i);
        lemma_found_of_permutation(a.remove(last), b.remove(i));
        lemma_found_without(a, last);
        lemma_found_without(b, i);
    } else {
        assert(a =~= b);
    }
}

/// The load order is deterministic: two listings of the same entries, in
/// whatever order the file system gives them, hold the same entry points in
/// the same order.
pub proof fn discovery_ignores_listing_order(
    a: Seq<DirEntryView>,
    b: Seq<DirEntryView>,
    from_a: Seq<EntryPointView>,
    from_b: Seq<EntryPointView>,
)
    requires
        a.to_multiset() == b.to_multiset(),
        discovered(a, from_a),
        discovered(b, from_b),
    ensures
        from_a == from_b,
{
    lemma_found_of_permutation(a, b);
    let le = |x: EntryPointView, y: EntryPointView| point_le(x, y);
    assert(total_ordering(le)) by {
        assert forall|x: EntryPointView| #[trigger] le(x, x) by {
            lemma_point_order(x, x, x);
        }
        assert forall|x: EntryPointView, y: EntryPointView| #[trigger] le(x, y) && #[trigger] le(
            y,
            x,
        ) implies x == y by {
            lemma_point_order(x, y, y);
        }
        assert forall|x: EntryPointView, y: EntryPointView, z: EntryPointView| #[trigger]
            le(x, y) && #[trigger] le(y, z) implies le(x, z) by {
            lemma_point_order(x, y, z);
        }
        assert forall|x: EntryPointView, y: EntryPointView| #[trigger] le(x, y) || #[trigger] le(
            y,
            x,
        ) by {
            lemma_point_order(x, y, y);
        }
    }
    assert(sorted_by(from_a, le));
    assert(sorted_by(from_b, le));
    lemma_sorted_unique(from_a, from_b, le);
}

/// Whether a listing names no entry twice.
pub open spec fn names_differ(entries: Seq<DirEntryView>) -> bool {
    forall|i: int, j: int|
        0 <= i < j < entries.len() && (#[trigger] entries[i]).name is Some ==> entries[i].name != (
        #[trigger] entries[j]).name
}

/// The strict order of entry points.
pub open spec fn point_lt(a: EntryPointView, b: EntryPointView) -> bool {
    point_le(a, b) && a != b
}

proof fn lemma_point_tells_entry(a: DirEntryView, b: DirEntryView)
    requires
        entry_point(a) is Some,
        entry_point(a) == entry_point(b),
    ensures
        a.name is Some,
        a.name == b.name,
{
    if a.kind is File {
        let file = a.name->Some_0;
        let other = b.name->Some_0;
        let n = file.len() - ".rune"@.len();
        let m = other.len() - ".rune"@.len();
        assert(file =~= file.take(n) + file.skip(n));
        assert(other =~= other.take(m) + other.skip(m));
    }
}

proof fn lemma_found_in_listing(entries: Seq<DirEntryView>, point: EntryPointView)
    requires
        found(entries).contains(point),
    ensures
        exists|k: int| 0 <= k < entries.len() && entry_point(#[trigger] entries[k]) == Some(point),
    decreases entries.len(),
{
    let rest = entries.drop_last();
    if entry_point(entries.last()) == Some(point) {
        assert(entries[entries.len() - 1] == entries.last());
    } else {
        let i = choose|i: int| 0 <= i < found(entries).len() && found(entries)[i] == point;
        assert(found(rest)[i] == point);
        lemma_found_in_listing(rest, point);
        let k = choose|k: int|
            0 <= k < rest.len() && entry_point(#[trigger] rest[k]) == Some(point);
        assert(entries[k] == rest[k]);
    }
}

proof fn lemma_found_once(entries: Seq<DirEntryView>)
    requires
        names_differ(entries),
    ensures
        found(entries).no_duplicates(),
    decreases entries.len(),
{
    if entries.len() > 0 {
        let rest = entries.drop_last();
        assert forall|i: int, j: int|
            0 <= i < j < rest.len() && (#[trigger] rest[i]).name is Some implies rest[i].name != (
        #[trigger] rest[j]).name by {
            assert(entries[i].name != entries[j].name);
        }
        lemma_found_once(rest);
        if let Some(point) = entry_point(entries.last()) {
            if found(rest).contains(point) {
                lemma_found_in_listing(rest, point);
                let k = choose|k: int|
                    0 <= k < rest.len() && entry_point(#[trigger] rest[k]) == Some(point);
                lemma_point_tells_entry(rest[k], entries.last());
                assert(entries[k].name != entries[entries.len() - 1].name);
            }
        }
    }
}

/// Discovery is strict: where the listing names no entry twice, as a directory
/// does not, the entry points stand in strictly increasing order, and none
/// occurs twice.
pub proof fn discovery_is_strict(entries: Seq<DirEntryView>, points: Seq<EntryPointView>)
    requires
        names_differ(entries),
        discovered(entries, points),
    ensures
        points.no_duplicates(),
        forall|i: int, j: int|
            0 <= i < j < points.len() ==> point_lt(#[trigger] points[i], #[trigger] points[j]),
{
    lemma_found_once(entries);
    found(entries).lemma_multiset_has_no_duplicates();
    points.lemma_multiset_has_no_duplicates_conv();
}

proof fn lemma_prefix_first(a: Seq<char>, b: Seq<char>)
    ensures
        text_le(a, a + b),
    decreases a.len(),
{
    if a.len() > 0 {
        lemma_prefix_first(a.drop_first(), b);
        assert((a + b).drop_first() =~= a.drop_first() + b);
    }
}

/// Entry points of one name go by their paths: the first part of a package's
/// path, which is the name itself, comes before the file's.
pub proof fn packages_go_before_files(name: Seq<char>)
    ensures
        text_le(name, plugin_file(name)),
        name != plugin_file(name),
        point_lt(
            EntryPointView { name, package: true },
            EntryPointView { name, package: false },
        ),
{
    reveal_strlit(".rune");
    lemma_prefix_first(name, ".rune"@);
    assert(name.len() < plugin_file(name).len());
}

proof fn lemma_listed_is_found(entries: Seq<DirEntryView>, k: int)
    requires
        0 <= k < entries.len(),
        entry_point(entries[k]) is Some,
    ensures
        found(entries).contains(entry_point(entries[k])->Some_0),
    decreases entries.len(),
{
    let rest = entries.drop_last();
    let point = entry_point(entries[k])->Some_0;
    if k < rest.len() {
        lemma_listed_is_found(rest, k);
        let i = choose|i: int| 0 <= i < found(rest).len() && found(rest)[i] == point;
        assert(found(entries)[i] == point);
    } else {
        assert(found(entries)[found(rest).len() as int] == point);
    }
}

/// An entry is a plugin's where it is a file `<name>.rune`, or a directory
/// `<name>` that holds `<name>.rune`; a name is not empty in a file's case.
pub proof fn plugins_are_files_and_packages(entry: DirEntryView, name: Seq<char>)
    ensures
        entry_point(entry) == Some(EntryPointView { name, package: false }) <==> entry.kind is File
            && name.len() > 0 && entry.name == Some(name + ".rune"@),
        entry_point(entry) == Some(EntryPointView { name, package: true }) <==> entry.kind
            == EntryKind::Directory(true) && entry.name == Some(name),
{
    reveal_strlit(".rune");
    let file = name + ".rune"@;
    let n = name.len() as int;
    assert(file.skip(n) =~= ".rune"@);
    assert(file.take(n) =~= name);
    if entry.kind is File && entry.name is Some {
        let given = entry.name->Some_0;
        let m = given.len() - ".rune"@.len();
        if m > 0 && given.skip(m) == ".rune"@ && given.take(m) == name {
            assert(given =~= given.take(m) + given.skip(m));
        }
    }
}

/// Discovery finds every plugin of a listing, and nothing else: each file
/// `<name>.rune`, and each directory `<name>` that holds `<name>.rune`.
pub proof fn discovery_finds_every_plugin(
    entries: Seq<DirEntryView>,
    points: Seq<EntryPointView>,
    name: Seq<char>,
)
    requires
        discovered(entries, points),
    ensures
        points.contains(EntryPointView { name, package: false }) <==> name.len() > 0 && exists|
            k: int,
        |
            0 <= k < entries.len() && (#[trigger] entries[k]).kind is File && entries[k].name == Some(
                name + ".rune"@,
            ),
        points.contains(EntryPointView { name, package: true }) <==> exists|k: int|
            0 <= k < entries.len() && (#[trigger] entries[k]).kind == EntryKind::Directory(true)
                && entries[k].name == Some(name),
{
    let flat = EntryPointView { name, package: false };
    let package = EntryPointView { name, package: true };
    vstd::seq_lib::to_multiset_contains(points, flat);
    vstd::seq_lib::to_multiset_contains(points, package);
    vstd::seq_lib::to_multiset_contains(found(entries), flat);
    vstd::seq_lib::to_multiset_contains(found(entries), package);
    if found(entries).contains(flat) {
        lemma_found_in_listing(entries, flat);
        let k = choose|k: int|
            0 <= k < entries.len() && entry_point(#[trigger] entries[k]) == Some(flat);
        plugins_are_files_and_packages(entries[k], name);
    }
    if found(entries).contains(package) {
        lemma_found_in_listing(entries, package);
        let k = choose|k: int|
            0 <= k < entries.len() && entry_point(#[trigger] entries[k]) == Some(package);
        plugins_are_files_and_packages(entries[k], name);
    }
    if name.len() > 0 && exists|k: int|
        0 <= k < entries.len() && (#[trigger] entries[k]).kind is File && entries[k].name == Some(
            name + ".rune"@,
        ) {
        let k = choose|k: int|
            0 <= k < entries.len() && (#[trigger] entries[k]).kind is File && entries[k].name
                == Some(name + ".rune"@);
        plugins_are_files_and_packages(entries[k], name);
        lemma_listed_is_found(entries, k);
    }
    if exists|k: int|
        0 <= k < entries.len() && (#[trigger] entries[k]).kind == EntryKind::Directory(true)
            && entries[k].name == Some(name) {
        let k = choose|k: int|
            0 <= k < entries.len() && (#[trigger] entries[k]).kind == EntryKind::Directory(true)
                && entries[k].name == Some(name);
        plugins_are_files_and_packages(entries[k], name);
        lemma_listed_is_found(entries, k);
    }
}

/// What is discovered stands in lexicographic order of the names, and of one
/// name the package stands before the file. Where the listing names no entry
/// twice, nothing is discovered twice.
pub proof fn discovery_is_in_lexicographic_order(
    entries: Seq<DirEntryView>,
    points: Seq<EntryPointView>,
)
    requires
        discovered(entries, points),
    ensures
        forall|i: int, j: int|
            0 <= i < j < points.len() ==> {
                let a = #[trigger] points[i];
                let b = #[trigger] points[j];
                &&& text_le(a.name, b.name)
                &&& a.name == b.name && a.package != b.package ==> a.package
            },
        (forall|i: int, j: int|
            0 <= i < j < entries.len() && (#[trigger] entries[i]).name is Some ==> entries[i].name
                != (#[trigger] entries[j]).name) ==> forall|i: int, j: int|
            0 <= i < j < points.len() ==> #[trigger] points[i] != #[trigger] points[j],
{
    assert forall|i: int, j: int| 0 <= i < j < points.len() implies {
        let a = #[trigger] points[i];
        let b = #[trigger] points[j];
        &&& text_le(a.name, b.name)
        &&& a.name == b.name && a.package != b.package ==> a.package
    } by {
        assert(point_le(points[i], points[j]));
        text_order_is_total(points[i].name, points[j].name, points[i].name);
    }
    if names_differ(entries) {
        discovery_is_strict(entries, points);
    }
}

/// A file's path is `<name>.rune`, and a package's is `<name>/<name>.rune`.
pub proof fn paths_follow_the_name(name: Seq<char>)
    ensures
        plugin_file(name) == name + ".rune"@,
        point_path(EntryPointView { name, package: false }) == name + ".rune"@,
        point_path(EntryPointView { name, package: true }) == name + "/"@ + (name + ".rune"@),
{
}

/// Entries and entry points are seen with their names, and as what they are.
pub proof fn entries_are_seen_as_they_are(entry: DirEntry, point: EntryPoint)
    ensures
        entry.name matches Some(name) ==> entry@.name == Some(name@),
        entry.name is None ==> entry@.name is None,
        entry@.kind == entry.kind,
        point@.name == point.name@,
        point@.package == point.package,
{
}

/// Listings and entry points are seen one for one.
pub proof fn listings_are_seen_one_for_one(entries: Seq<DirEntry>, points: Seq<EntryPoint>)
    ensures
        entry_views(entries).len() == entries.len(),
        forall|i: int| 0 <= i < entries.len() ==> #[trigger] entry_views(entries)[i] == entries[i]@,
        point_views(points).len() == points.len(),
        forall|i: int| 0 <= i < points.len() ==> #[trigger] point_views(points)[i] == points[i]@,
{
}

proof fn lemma_found_count(
    entries: Seq<DirEntryView>,
    entry: DirEntryView,
    point: EntryPointView,
)
    requires
        forall|e: DirEntryView| #[trigger] entry_point(e) == Some(point) <==> e == entry,
    ensures
        found(entries).to_multiset().count(point) == entries.to_multiset().count(entry),
    decreases entries.len(),
{
    if entries.len() > 0 {
        let rest = entries.drop_last();
        lemma_found_count(rest, entry, point);
        vstd::seq_lib::to_multiset_build(rest, entries.last());
        assert(entries =~= rest.push(entries.last()));
        if let Some(last) = entry_point(entries.last()) {
            vstd::seq_lib::to_multiset_build(found(rest), last);
        }
    } else {
        assert(found(entries) =~= Seq::empty());
        vstd::seq_lib::to_multiset_len(entries);
        vstd::seq_lib::to_multiset_len(found(entries));
    }
}

/// Each entry of a listing that is a plugin's is found, and found once: a
/// package as often as its directory is listed, and a file as often as the file
/// is.
pub proof fn every_entry_counts_once(
    entries: Seq<DirEntryView>,
    points: Seq<EntryPointView>,
    name: Seq<char>,
)
    requires
        discovered(entries, points),
    ensures
        points.to_multiset().count(EntryPointView { name, package: true })
            == entries.to_multiset().count(
            DirEntryView { name: Some(name), kind: EntryKind::Directory(true) },
        ),
        name.len() > 0 ==> points.to_multiset().count(EntryPointView { name, package: false })
            == entries.to_multiset().count(
            DirEntryView { name: Some(name + ".rune"@), kind: EntryKind::File },
        ),
{
    let package = EntryPointView { name, package: true };
    let directory = DirEntryView { name: Some(name), kind: EntryKind::Directory(true) };
    assert forall|e: DirEntryView| #[trigger] entry_point(e) == Some(package) <==> e
        == directory by {
        plugins_are_files_and_packages(e, name);
    }
    lemma_found_count(entries, directory, package);
    if name.len() > 0 {
        let flat = EntryPointView { name, package: false };
        let file = DirEntryView { name: Some(name + ".rune"@), kind: EntryKind::File };
        assert forall|e: DirEntryView| #[trigger] entry_point(e) == Some(flat) <==> e == file by {
            plugins_are_files_and_packages(e, name);
        }
        lemma_found_count(entries, file, flat);
    }
}

} // verus!
