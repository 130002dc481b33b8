//! Packaging a release: which command builds a target, and the index of
//! checksums.

use vstd::prelude::*;

use crate::tasks::build_agents::{build_command, cargo_args};
use crate::tasks::preflight::{
    is_darwin, release_target_names, release_targets, spec_is_darwin, HostOs,
};
use crate::text::{decimal, decimal_string, digit, texts};

verus! {

/// The directory of the binary that runs on every Mac.
pub open spec fn universal_dir() -> Seq<char> {
    "universal-apple-darwin"@
}

/// On macOS, targets for macOS are built with the system's own linker; all
/// others go through zig.
pub open spec fn build_subcommand(host: HostOs, triple: Seq<char>) -> Seq<char> {
    if host == HostOs::MacOs && spec_is_darwin(triple) {
        "build"@
    } else {
        "zigbuild"@
    }
}

/// Cargo's subcommand for one target.
pub fn subcommand_for(host: HostOs, triple: &str) -> (r: &'static str)
    ensures
        r@ == build_subcommand(host, triple@),
{
    if host == HostOs::MacOs && is_darwin(triple) {
        "build"
    } else {
        "zigbuild"
    }
}

/// Cargo's arguments for building the program.
pub fn release_args(host: HostOs, triple: &str) -> (r: Vec<String>)
    ensures
        texts(r@) == build_command(
            build_subcommand(host, triple@),
            "tepegoz"@,
            "release"@,
            triple@,
        ),
{
    cargo_args(subcommand_for(host, triple), "tepegoz", "release", triple)
}

/// Both Mac binaries have to be there before they are fused. The paths are
/// written out.
pub fn require_darwin_binaries(
    intel_exists: bool,
    intel: &str,
    arm_exists: bool,
    arm: &str,
) -> (r: Result<(), String>)
    ensures
        r is Ok <==> intel_exists && arm_exists,
        r matches Err(text) ==> text@
            == "universal-apple-darwin requires both darwin binaries — missing "@ + (
        if intel_exists {
            arm@
        } else {
            intel@
        }),
{
    if intel_exists && arm_exists {
        Ok(())
    } else {
        let missing: &str = if intel_exists {
            arm
        } else {
            intel
        };
        Err(
            String::from_str(
                "universal-apple-darwin requires both darwin binaries — missing ",
            ).concat(missing),
        )
    }
}

/// The file that goes with a binary.
pub open spec fn manifest_text(version: Seq<char>, triple: Seq<char>, built_at: u64) -> Seq<char> {
    "{\n  \"version\": \""@ + version + "\",\n  \"target_triple\": \""@ + triple
        + "\",\n  \"built_at_unix_secs\": "@ + decimal(built_at as nat) + "\n}\n"@
}

/// The file that goes with a binary.
pub fn manifest(version: &str, triple: &str, built_at: u64) -> (r: String)
    ensures
        r@ == manifest_text(version@, triple@, built_at),
{
    String::from_str("{\n  \"version\": \"").concat(version).concat(
        "\",\n  \"target_triple\": \"",
    ).concat(triple).concat("\",\n  \"built_at_unix_secs\": ").concat(
        decimal_string(built_at).as_str(),
    ).concat("\n}\n")
}

/// Names of the directories that hold a binary.
pub open spec fn bundle_names(universal: bool) -> Seq<Seq<char>> {
    if universal {
        release_target_names().push(universal_dir())
    } else {
        release_target_names()
    }
}

/// The directories that hold a binary, as a release is put together.
pub fn bundle_dirs(universal: bool) -> (r: Vec<String>)
    ensures
        texts(r@) == bundle_names(universal),
{
    let mut dirs = release_targets();
    if universal {
        dirs.push(String::from_str("universal-apple-darwin"));
    }
    assert(texts(dirs@) =~= bundle_names(universal));
    dirs
}

/// The SHA-256 digest of bytes.
pub uninterp spec fn sha256_of(bytes: Seq<u8>) -> Seq<u8>;

/// `sha2::Sha256::digest`: 32 bytes that depend on the input alone. The hash
/// function itself is not spelled out.
#[verifier::external_body]
fn sha256(bytes: &[u8]) -> (r: Vec<u8>)
    ensures
        r@ == sha256_of(bytes@),
        r@.len() == 32,
{
    <sha2::Sha256 as sha2::Digest>::digest(bytes).to_vec()
}

/// A hexadecimal digit in lower case.
pub open spec fn hex_digit(d: int) -> char {
    if d < 10 {
        digit(d as nat)
    } else {
        ('a' as int + d - 10) as char
    }
}

/// Bytes in hexadecimal, two digits each.
pub open spec fn hex_text(bytes: Seq<u8>) -> Seq<char> {
    Seq::new(
        2 * bytes.len(),
        |i: int| if i % 2 == 0 {
            hex_digit(bytes[i / 2] as int / 16)
        } else {
            hex_digit(bytes[i / 2] as int % 16)
        },
    )
}

/// `hex::encode`: two lower-case digits for every byte, the high one first.
#[verifier::external_body]
fn hex_encode(bytes: &[u8]) -> (r: String)
    ensures
        r@ == hex_text(bytes@),
{
    hex::encode(bytes)
}

/// A file of the index: its digest in hexadecimal, and where it is.
#[derive(Debug, Clone)]
pub struct SumEntry {
    pub digest: String,
    pub path: String,
}

/// [`SumEntry`] with its texts as sequences.
#[verifier::ext_equal]
pub ghost struct SumView {
    pub digest: Seq<char>,
    pub path: Seq<char>,
}

impl View for SumEntry {
    type V = SumView;

    open spec fn view(&self) -> SumView {
        SumView { digest: self.digest@, path: self.path@ }
    }
}

/// The views of a list of entries.
pub open spec fn sum_views(entries: Seq<SumEntry>) -> Seq<SumView> {
    entries.map_values(|e: SumEntry| e@)
}

/// The entry of a directory's binary, given the binary's contents.
pub fn sum_entry(dir: &str, contents: &[u8]) -> (r: SumEntry)
    ensures
        r@ == (SumView {
            digest: hex_text(sha256_of(contents@)),
            path: dir@ + "/tepegoz"@,
        }),
        r.digest@.len() == 64,
{
    let digest = sha256(contents);
    SumEntry {
        digest: hex_encode(digest.as_slice()),
        path: dir.to_owned().concat("/tepegoz"),
    }
}

/// `a` comes before `b` in dictionary order, by code points.
pub open spec fn text_before(a: Seq<char>, b: Seq<char>) -> bool
    decreases a.len(),
{
    if b.len() == 0 {
        false
    } else if a.len() == 0 {
        true
    } else if a[0] != b[0] {
        a[0] < b[0]
    } else {
        text_before(a.drop_first(), b.drop_first())
    }
}

fn comes_before(a: &str, b: &str) -> (r: bool)
    ensures
        r == text_before(a@, b@),
{
    let n: usize = a.unicode_len();
    let m: usize = b.unicode_len();
    let mut i: usize = 0;
    assert(a@.skip(0) =~= a@);
    assert(b@.skip(0) =~= b@);
    while i < n && i < m && a.get_char(i) == b.get_char(i)
        invariant
            n == a@.len(),
            m == b@.len(),
            0 <= i <= n,
            i <= m,
            text_before(a@, b@) == text_before(a@.skip(i as int), b@.skip(i as int)),
        decreases n - i,
    {
        proof {
            assert(a@.skip(i as int).drop_first() =~= a@.skip(i + 1));
            assert(b@.skip(i as int).drop_first() =~= b@.skip(i + 1));
        }
        i += 1;
    }
    if i == m {
        false
    } else if i == n {
        true
    } else {
        a.get_char(i) < b.get_char(i)
    }
}

/// Where a new entry goes in a sorted list: behind every entry that does not
/// come after it.
pub open spec fn place_for(sorted: Seq<SumView>, path: Seq<char>) -> int
    decreases sorted.len(),
{
    if sorted.len() == 0 {
        0
    } else if text_before(path, sorted.last().path) {
        place_for(sorted.drop_last(), path)
    } else {
        sorted.len() as int
    }
}

/// The entries in the order of their paths. Entries of one path keep their
/// order.
pub open spec fn by_path(entries: Seq<SumView>) -> Seq<SumView>
    decreases entries.len(),
{
    if entries.len() == 0 {
        Seq::empty()
    } else {
        let sorted = by_path(entries.drop_last());
        sorted.insert(place_for(sorted, entries.last().path), entries.last())
    }
}

proof fn lemma_place(sorted: Seq<SumView>, path: Seq<char>)
    ensures
        0 <= place_for(sorted, path) <= sorted.len(),
    decreases sorted.len(),
{
    if sorted.len() > 0 {
        lemma_place(sorted.drop_last(), path);
    }
}

/// Sorts the entries by path.
pub fn sort_entries(entries: Vec<SumEntry>) -> (r: Vec<SumEntry>)
    ensures
        sum_views(r@) == by_path(sum_views(entries@)),
{
    let ghost all = sum_views(entries@);
    let n: usize = entries.len();
    let mut sorted: Vec<SumEntry> = Vec::new();
    let mut i: usize = 0;
    assert(all.take(0) =~= Seq::empty());
    assert(sum_views(sorted@) =~= by_path(all.take(0)));
    while i < n
        invariant
            n == entries@.len(),
            all == sum_views(entries@),
            0 <= i <= n,
            sorted@.len() == i,
            sum_views(sorted@) == by_path(all.take(i as int)),
        decreases n - i,
    {
        let entry = SumEntry {
            digest: entries[i].digest.clone(),
            path: entries[i].path.clone(),
        };
        let ghost views = sum_views(sorted@);
        let mut at: usize = sorted.len();
        assert(views.take(at as int) =~= views);
        while at > 0 && comes_before(entry.path.as_str(), sorted[at - 1].path.as_str())
            invariant
                0 <= at <= sorted@.len(),
                views == sum_views(sorted@),
                place_for(views.take(at as int), entry.path@) == place_for(views, entry.path@),
            decreases at,
        {
            assert(views.take(at as int).drop_last() =~= views.take(at - 1));
            assert(views.take(at as int).last() == sorted@[at - 1]@);
            at -= 1;
        }
        proof {
            if at > 0 {
                assert(views.take(at as int).last() == sorted@[at - 1]@);
            }
            assert(place_for(views, entry.path@) == at);
            assert(all.take(i + 1).drop_last() =~= all.take(i as int));
            assert(all[i as int] == entries@[i as int]@);
            assert(entry@ =~= all[i as int]);
        }
        sorted.insert(at, entry);
        assert(sum_views(sorted@) =~= views.insert(at as int, entry@));
        i += 1;
    }
    assert(all.take(n as int) =~= all);
    sorted
}

proof fn lemma_before_is_strict(a: Seq<char>, b: Seq<char>)
    requires
        text_before(a, b),
    ensures
        !text_before(b, a),
    decreases a.len(),
{
    if a.len() > 0 && a[0] == b[0] {
        lemma_before_is_strict(a.drop_first(), b.drop_first());
    }
}

proof fn lemma_before_is_transitive(a: Seq<char>, b: Seq<char>, c: Seq<char>)
    requires
        !text_before(b, a),
        !text_before(c, b),
    ensures
        !text_before(c, a),
    decreases a.len(),
{
    if a.len() > 0 && b.len() > 0 && c.len() > 0 && a[0] == b[0] && b[0] == c[0] {
        lemma_before_is_transitive(a.drop_first(), b.drop_first(), c.drop_first());
    }
}

/// No entry comes before the one in front of it.
pub open spec fn in_path_order(entries: Seq<SumView>) -> bool {
    forall|i: int, j: int|
        #![trigger entries[i], entries[j]]
        0 <= i < j < entries.len() ==> !text_before(entries[j].path, entries[i].path)
}

proof fn lemma_place_fits(sorted: Seq<SumView>, path: Seq<char>)
    requires
        in_path_order(sorted),
    ensures
        0 <= place_for(sorted, path) <= sorted.len(),
        forall|i: int|
            0 <= i < place_for(sorted, path) ==> !text_before(path, (#[trigger] sorted[i]).path),
        forall|i: int|
            place_for(sorted, path) <= i < sorted.len() ==> text_before(
                path,
                (#[trigger] sorted[i]).path,
            ),
    decreases sorted.len(),
{
    if sorted.len() > 0 {
        let shorter = sorted.drop_last();
        assert(in_path_order(shorter)) by {
            assert forall|i: int, j: int|
                #![trigger shorter[i], shorter[j]]
                0 <= i < j < shorter.len() implies !text_before(
                shorter[j].path,
                shorter[i].path,
            ) by {
                assert(sorted[i] == shorter[i] && sorted[j] == shorter[j]);
            }
        }
        lemma_place_fits(shorter, path);
        let last = sorted.last();
        if text_before(path, last.path) {
            assert forall|i: int| 0 <= i < place_for(sorted, path) implies !text_before(
                path,
                (#[trigger] sorted[i]).path,
            ) by {
                assert(shorter[i] == sorted[i]);
            }
            assert forall|i: int| place_for(sorted, path) <= i < sorted.len() implies text_before(
                path,
                (#[trigger] sorted[i]).path,
            ) by {
                if i < shorter.len() {
                    assert(shorter[i] == sorted[i]);
                }
            }
        } else {
            assert forall|i: int| 0 <= i < sorted.len() implies !text_before(
                path,
                (#[trigger] sorted[i]).path,
            ) by {
                if i < sorted.len() - 1 {
                    assert(sorted[sorted.len() - 1] == last);
                    assert(!text_before(last.path, sorted[i].path));
                    lemma_before_is_transitive(sorted[i].path, last.path, path);
                }
            }
        }
    }
}

/// The index is sorted by path.
pub proof fn sums_are_sorted(entries: Seq<SumView>)
    ensures
        in_path_order(by_path(entries)),
    decreases entries.len(),
{
    if entries.len() > 0 {
        let sorted = by_path(entries.drop_last());
        let e = entries.last();
        let k = place_for(sorted, e.path);
        sums_are_sorted(entries.drop_last());
        lemma_place_fits(sorted, e.path);
        let longer = sorted.insert(k, e);
        assert forall|i: int, j: int|
            #![trigger longer[i], longer[j]]
            0 <= i < j < longer.len() implies !text_before(longer[j].path, longer[i].path) by {
            if j < k {
                assert(longer[i] == sorted[i] && longer[j] == sorted[j]);
            } else if j == k {
                assert(longer[i] == sorted[i]);
            } else if i < k {
                assert(longer[i] == sorted[i] && longer[j] == sorted[j - 1]);
            } else if i == k {
                assert(longer[j] == sorted[j - 1]);
                lemma_before_is_strict(e.path, sorted[j - 1].path);
            } else {
                assert(longer[i] == sorted[i - 1] && longer[j] == sorted[j - 1]);
            }
        }
    }
}

/// The index lists every file exactly as often as it was handed in.
pub proof fn sums_list_every_file(entries: Seq<SumView>)
    ensures
        by_path(entries).to_multiset() == entries.to_multiset(),
        by_path(entries).len() == entries.len(),
    decreases entries.len(),
{
    broadcast use vstd::seq_lib::group_to_multiset_ensures;

    if entries.len() > 0 {
        let shorter = entries.drop_last();
        let sorted = by_path(shorter);
        let e = entries.last();
        sums_list_every_file(shorter);
        lemma_place(sorted, e.path);
        assert(entries =~= shorter.push(e));
        assert(sorted.insert(place_for(sorted, e.path), e).to_multiset() =~= sorted.to_multiset().insert(
            e,
        ));
    } else {
        assert(by_path(entries) =~= entries);
    }
}

/// The index: a line for each entry, digest and path two spaces apart.
pub open spec fn sums_body(entries: Seq<SumView>) -> Seq<char>
    decreases entries.len(),
{
    if entries.len() == 0 {
        Seq::empty()
    } else {
        sums_body(entries.drop_last()) + entries.last().digest + "  "@ + entries.last().path
            + "\n"@
    }
}

fn write_entries(entries: &Vec<SumEntry>) -> (r: String)
    ensures
        r@ == sums_body(sum_views(entries@)),
{
    let ghost all = sum_views(entries@);
    let mut body = String::new();
    let n: usize = entries.len();
    let mut i: usize = 0;
    assert(all.take(0) =~= Seq::empty());
    while i < n
        invariant
            n == entries@.len(),
            all == sum_views(entries@),
            0 <= i <= n,
            body@ == sums_body(all.take(i as int)),
        decreases n - i,
    {
        proof {
            assert(all.take(i + 1).drop_last() =~= all.take(i as int));
            assert(all[i as int] == entries@[i as int]@);
        }
        body.append(entries[i].digest.as_str());
        body.append("  ");
        body.append(entries[i].path.as_str());
        body.append("\n");
        i += 1;
    }
    assert(all.take(n as int) =~= all);
    body
}

/// The index of the given files, sorted by path.
pub fn sha256sums(entries: Vec<SumEntry>) -> (r: String)
    ensures
        r@ == sums_body(by_path(sum_views(entries@))),
{
    let sorted = sort_entries(entries);
    write_entries(&sorted)
}

/// What is said at the end.
pub fn done_message(universal: bool) -> (r: String)
    ensures
        r@ == "[build-release] done: "@ + decimal(bundle_names(universal).len())
            + " artifact(s) + SHA256SUMS"@,
{
    let count: u64 = if universal {
        5
    } else {
        4
    };
    String::from_str("[build-release] done: ").concat(decimal_string(count).as_str()).concat(
        " artifact(s) + SHA256SUMS",
    )
}

} // verus!
