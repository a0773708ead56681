//! A cache of build results on disk, addressed by the digest of what they
//! were built from. Writers do not lock: each one writes into a directory
//! of its own and then moves it into place.
//!
//! This module names the directories and decides each step; touching the
//! disk is the caller's part.

use vstd::prelude::*;
use vstd::string::StringExecFns;
use crate::text::{decimal, decimal_text};

verus! {

/// The hasher of `chksum_sha1`.
#[verifier::external_type_specification]
#[verifier::external_body]
pub struct ExSha1(chksum_sha1::SHA1);

/// The digest of `chksum_sha1`.
#[verifier::external_type_specification]
#[verifier::external_body]
pub struct ExDigest(chksum_sha1::Digest);

/// The bytes that a hasher has taken in so far, in order.
pub uninterp spec fn sha1_input(hash: chksum_sha1::SHA1) -> Seq<u8>;

/// The bytes of the digest that a hasher gives after it has taken in
/// `input`.
pub uninterp spec fn sha1_of(input: Seq<u8>) -> Seq<u8>;

/// The bytes that a digest holds.
pub uninterp spec fn digest_bytes(digest: chksum_sha1::Digest) -> Seq<u8>;

/// `chksum_sha1::SHA1::new`: a hasher that has taken in nothing.
#[verifier::external_body]
fn sha1_new() -> (hash: chksum_sha1::SHA1)
    ensures
        sha1_input(hash) == Seq::<u8>::empty(),
{
    chksum_sha1::SHA1::new()
}

/// `chksum_sha1::SHA1::update`: the hasher takes in `data` after what it
/// has taken in before.
#[verifier::external_body]
fn sha1_update(hash: &mut chksum_sha1::SHA1, data: &[u8])
    ensures
        sha1_input(*final(hash)) == sha1_input(*old(hash)) + data@,
{
    hash.update(data);
}

/// `chksum_sha1::SHA1::digest`: the digest of what the hasher has taken in.
/// It depends on those bytes alone, not on the pieces they came in.
#[verifier::external_body]
fn sha1_digest(hash: &chksum_sha1::SHA1) -> (digest: chksum_sha1::Digest)
    ensures
        digest_bytes(digest) == sha1_of(sha1_input(*hash)),
{
    hash.digest()
}

/// `chksum_sha1::Digest::to_hex_lowercase`: each byte of the digest as two
/// lowercase hexadecimal digits, the high one first.
#[verifier::external_body]
fn digest_hex(digest: &chksum_sha1::Digest) -> (hex: String)
    ensures
        hex@ == hex_lowercase(digest_bytes(*digest)),
{
    digest.to_hex_lowercase()
}

/// `rand::random` for a `u32`: any value may come back.
#[verifier::external_body]
fn random_suffix() -> (suffix: u32) {
    rand::random::<u32>()
}

/// The lowercase hexadecimal digit of a value below 16.
pub open spec fn hex_digit(value: int) -> char {
    if value < 10 {
        (48 + value) as char
    } else {
        (87 + value) as char
    }
}

/// Bytes written as lowercase hexadecimal digits, two for each byte, the
/// high one first.
pub open spec fn hex_lowercase(bytes: Seq<u8>) -> Seq<char> {
    Seq::new(
        2 * bytes.len(),
        |i: int|
            hex_digit(
                if i % 2 == 0 {
                    bytes[i / 2] as int / 16
                } else {
                    bytes[i / 2] as int % 16
                },
            ),
    )
}

/// Byte strings joined end to end, in order.
pub open spec fn concat_all(parts: Seq<Vec<u8>>) -> Seq<u8>
    decreases parts.len(),
{
    if parts.len() == 0 {
        Seq::empty()
    } else {
        concat_all(parts.drop_last()) + parts.last()@
    }
}

/// The name of the directory that holds the result for a digest: the digest
/// in lowercase hexadecimal.
pub open spec fn entry_name(digest: Seq<u8>) -> Seq<char> {
    hex_lowercase(digest)
}

/// The name of the directory that a writer with the given suffix writes
/// into: `tmp-`, the entry's name, `-`, and the suffix in decimal.
pub open spec fn temp_name(digest: Seq<u8>, suffix: u32) -> Seq<char> {
    "tmp-"@ + entry_name(digest) + "-"@ + decimal(suffix as nat)
}

/// An identifier for a directory that may hold a cached result.
pub struct CacheId(chksum_sha1::Digest);

impl CacheId {
    /// The bytes of the digest.
    pub closed spec fn bytes(&self) -> Seq<u8> {
        digest_bytes(self.0)
    }

    /// The name of the entry's directory.
    pub fn to_hex_lowercase(&self) -> (hex: String)
        ensures
            hex@ == entry_name(self.bytes()),
    {
        digest_hex(&self.0)
    }
}

/// A directory in which to keep the results of deterministic computations.
#[derive(Debug, Clone)]
pub struct Cache {
    root: String,
}

/// A way to write a result that the cache does not hold yet. The result is
/// not written where it will stay, but into a directory that no other
/// writer uses, which is then renamed. The final name depends on the inputs
/// alone, so where two writers end up with the same one, they have written
/// the same thing.
#[derive(Debug)]
pub struct CacheWriter {
    temp_dir: String,
    final_dir: String,
}

/// The answer of the cache to a query. Directories go by their names
/// within the cache's root.
#[derive(Debug)]
pub enum CacheQueryResult {
    /// The result is there, in this directory.
    Hit(String),
    /// The result is not there, and this is how to write it.
    Miss(CacheWriter),
}

/// What a writer does with its directory once the result is written.
#[derive(Debug)]
pub enum WriterAction {
    /// Another writer was first: remove the temporary directory.
    Discard { temp_dir: String },
    /// Rename the temporary directory to the final one.
    Commit { temp_dir: String, final_dir: String },
}

impl Cache {
    /// The path of the cache's root directory.
    pub closed spec fn root_path(&self) -> Seq<char> {
        self.root@
    }

    /// A cache in the directory `cache_folder`, which has to exist.
    pub fn new(cache_folder: String) -> (cache: Cache)
        ensures
            cache.root_path() == cache_folder@,
    {
        Cache { root: cache_folder }
    }

    /// The path of the cache's root directory.
    pub fn root(&self) -> (root: &str)
        ensures
            root@ == self.root_path(),
    {
        self.root.as_str()
    }

    /// Hashes the inputs of a computation: the digest of `input` followed by
    /// each of `other_inputs` in order, as one string of bytes.
    pub fn hash_input(input: &[u8], other_inputs: &[Vec<u8>]) -> (id: CacheId)
        ensures
            id.bytes() == sha1_of(input@ + concat_all(other_inputs@)),
    {
        let mut hash = sha1_new();
        sha1_update(&mut hash, input);
        let mut i: usize = 0;
        assert(other_inputs@.subrange(0, 0) =~= Seq::<Vec<u8>>::empty());
        while i < other_inputs.len()
            invariant
                i <= other_inputs.len(),
                sha1_input(hash) == input@ + concat_all(other_inputs@.subrange(0, i as int)),
            decreases other_inputs.len() - i,
        {
            proof {
                let upto = other_inputs@.subrange(0, i + 1);
                assert(upto.drop_last() =~= other_inputs@.subrange(0, i as int));
                assert(upto.last() == other_inputs@[i as int]);
                assert(input@ + concat_all(upto) =~= input@ + concat_all(upto.drop_last())
                    + upto.last()@);
            }
            sha1_update(&mut hash, other_inputs[i].as_slice());
            i += 1;
        }
        assert(other_inputs@.subrange(0, other_inputs.len() as int) =~= other_inputs@);
        CacheId(sha1_digest(&hash))
    }

    /// Answers a query, given whether the entry's directory exists and the
    /// suffix to use for a writer's directory.
    pub fn query_with_suffix(&self, id: CacheId, entry_exists: bool, suffix: u32) -> (res:
        CacheQueryResult)
        ensures
            res@ == query_result(id.bytes(), entry_exists, suffix),
    {
        let final_dir = id.to_hex_lowercase();
        if entry_exists {
            CacheQueryResult::Hit(final_dir)
        } else {
            let mut temp_dir = String::from_str("tmp-");
            temp_dir.append(final_dir.as_str());
            temp_dir.append("-");
            temp_dir.append(decimal_text(suffix as u64).as_str());
            CacheQueryResult::Miss(CacheWriter { temp_dir, final_dir })
        }
    }

    /// Answers a query, given whether the entry's directory exists: a hit on
    /// that directory if it does, else a writer with a temporary directory
    /// that has a random suffix.
    pub fn query(&self, id: CacheId, entry_exists: bool) -> (res: CacheQueryResult)
        ensures
            exists|suffix: u32| res@ == query_result(id.bytes(), entry_exists, suffix),
    {
        let suffix = random_suffix();
        self.query_with_suffix(id, entry_exists, suffix)
    }
}

/// `CacheQueryResult` in spec terms.
pub enum CacheQueryResultView {
    Hit(Seq<char>),
    Miss { temp_dir: Seq<char>, final_dir: Seq<char> },
}

impl View for CacheQueryResult {
    type V = CacheQueryResultView;

    open spec fn view(&self) -> CacheQueryResultView {
        match self {
            CacheQueryResult::Hit(dir) => CacheQueryResultView::Hit(dir@),
            CacheQueryResult::Miss(writer) => CacheQueryResultView::Miss {
                temp_dir: writer.temp_name(),
                final_dir: writer.final_name(),
            },
        }
    }
}

/// The answer to a query for a digest: a hit on the entry's directory where
/// it exists, else a writer from the temporary directory with the given
/// suffix to the entry's directory.
pub open spec fn query_result(digest: Seq<u8>, entry_exists: bool, suffix: u32) -> CacheQueryResultView {
    if entry_exists {
        CacheQueryResultView::Hit(entry_name(digest))
    } else {
        CacheQueryResultView::Miss {
            temp_dir: temp_name(digest, suffix),
            final_dir: entry_name(digest),
        }
    }
}

/// `WriterAction` in spec terms.
pub enum WriterActionView {
    Discard { temp_dir: Seq<char> },
    Commit { temp_dir: Seq<char>, final_dir: Seq<char> },
}

impl View for WriterAction {
    type V = WriterActionView;

    open spec fn view(&self) -> WriterActionView {
        match self {
            WriterAction::Discard { temp_dir } => WriterActionView::Discard { temp_dir: temp_dir@ },
            WriterAction::Commit { temp_dir, final_dir } => WriterActionView::Commit {
                temp_dir: temp_dir@,
                final_dir: final_dir@,
            },
        }
    }
}

impl CacheWriter {
    /// The name of the directory to write into.
    pub closed spec fn temp_name(&self) -> Seq<char> {
        self.temp_dir@
    }

    /// The name of the directory that the result is to end up in.
    pub closed spec fn final_name(&self) -> Seq<char> {
        self.final_dir@
    }

    /// The name of the directory to write into. The caller creates it
    /// before writing.
    pub fn temp_dir(&self) -> (name: &str)
        ensures
            name@ == self.temp_name(),
    {
        self.temp_dir.as_str()
    }

    /// The name of the directory that the result is to end up in.
    pub fn final_dir(&self) -> (name: &str)
        ensures
            name@ == self.final_name(),
    {
        self.final_dir.as_str()
    }

    /// What to do once the result is written, given whether the final
    /// directory exists by now: discard the temporary directory if it does,
    /// else rename it to the final one.
    pub fn finish(&self, final_dir_exists: bool) -> (action: WriterAction)
        ensures
            action@ == action_for(self.temp_name(), self.final_name(), final_dir_exists),
    {
        if final_dir_exists {
            WriterAction::Discard { temp_dir: self.temp_dir.clone() }
        } else {
            WriterAction::Commit {
                temp_dir: self.temp_dir.clone(),
                final_dir: self.final_dir.clone(),
            }
        }
    }
}

/// How far a writer has come.
pub enum WriterStage {
    /// It has its names and has touched nothing yet.
    Fresh,
    /// It has created its temporary directory and writes into it.
    Writing,
    /// It is done writing and has looked whether the final directory
    /// exists.
    Checked { found: bool },
    /// It has discarded or renamed its temporary directory.
    Done,
}

/// What a writer's action does to the directories of the cache's root,
/// taken as the set of their names.
pub open spec fn after_action(dirs: Set<Seq<char>>, action: WriterActionView) -> Set<Seq<char>> {
    match action {
        WriterActionView::Discard { temp_dir } => dirs.remove(temp_dir),
        WriterActionView::Commit { temp_dir, final_dir } => dirs.remove(temp_dir).insert(final_dir),
    }
}

/// What a writer decides once it has looked for the final directory.
pub open spec fn action_for(temp_dir: Seq<char>, final_dir: Seq<char>, found: bool) -> WriterActionView {
    if found {
        WriterActionView::Discard { temp_dir }
    } else {
        WriterActionView::Commit { temp_dir, final_dir }
    }
}

/// One step of a writer, which no other step comes between: it creates
/// its temporary directory, or looks for the final one, or acts on what it
/// saw then.
pub open spec fn writer_step(
    dirs: Set<Seq<char>>,
    stage: WriterStage,
    temp_dir: Seq<char>,
    final_dir: Seq<char>,
) -> (Set<Seq<char>>, WriterStage) {
    match stage {
        WriterStage::Fresh => (dirs.insert(temp_dir), WriterStage::Writing),
        WriterStage::Writing => (dirs, WriterStage::Checked { found: dirs.contains(final_dir) }),
        WriterStage::Checked { found } => (
            after_action(dirs, action_for(temp_dir, final_dir, found)),
            WriterStage::Done,
        ),
        WriterStage::Done => (dirs, WriterStage::Done),
    }
}

/// The directories of a cache's root and two writers for the same entry.
pub struct TwoWriters {
    pub dirs: Set<Seq<char>>,
    pub first: WriterStage,
    pub second: WriterStage,
}

/// Two writers for the same entry taking steps in the order that
/// `schedule` gives: `true` is a step of the first, `false` one of the
/// second.
pub open spec fn run_writers(
    start: TwoWriters,
    first_temp: Seq<char>,
    second_temp: Seq<char>,
    final_dir: Seq<char>,
    schedule: Seq<bool>,
) -> TwoWriters
    decreases schedule.len(),
{
    if schedule.len() == 0 {
        start
    } else {
        let before = run_writers(start, first_temp, second_temp, final_dir, schedule.drop_last());
        if schedule.last() {
            let (dirs, first) = writer_step(before.dirs, before.first, first_temp, final_dir);
            TwoWriters { dirs, first, second: before.second }
        } else {
            let (dirs, second) = writer_step(before.dirs, before.second, second_temp, final_dir);
            TwoWriters { dirs, first: before.first, second }
        }
    }
}

/// A number in decimal has at least one digit, and its last digit is the
/// number's remainder by ten.
proof fn lemma_decimal_last(n: nat)
    ensures
        decimal(n).len() >= 1,
        decimal(n).last() == (48 + n % 10) as char,
        n >= 10 ==> decimal(n).drop_last() == decimal(n / 10),
        n < 10 ==> decimal(n).len() == 1,
        n >= 10 ==> decimal(n).len() >= 2,
    decreases n,
{
    if n >= 10 {
        lemma_decimal_last(n / 10);
        assert(decimal(n / 10).push((48 + n % 10) as char).drop_last() =~= decimal(n / 10));
    }
}

/// Different numbers are written differently.
pub proof fn lemma_decimal_injective(a: nat, b: nat)
    requires
        decimal(a) == decimal(b),
    ensures
        a == b,
    decreases a,
{
    lemma_decimal_last(a);
    lemma_decimal_last(b);
    let da = (48 + a % 10) as char;
    let db = (48 + b % 10) as char;
    assert(da == db);
    assert(da as int == 48 + a % 10);
    assert(db as int == 48 + b % 10);
    if a >= 10 {
        lemma_decimal_injective(a / 10, b / 10);
    }
}

/// The temporary directory of a writer is never the entry's directory, and
/// writers with different suffixes have different temporary directories.
pub proof fn lemma_names_differ(digest: Seq<u8>, suffix: u32, other_suffix: u32)
    ensures
        temp_name(digest, suffix) != entry_name(digest),
        suffix != other_suffix ==> temp_name(digest, suffix) != temp_name(digest, other_suffix),
{
    reveal_strlit("tmp-");
    reveal_strlit("-");
    let head = "tmp-"@ + entry_name(digest) + "-"@;
    lemma_decimal_last(suffix as nat);
    assert(temp_name(digest, suffix).len() == head.len() + decimal(suffix as nat).len());
    if temp_name(digest, suffix) == temp_name(digest, other_suffix) {
        let one = temp_name(digest, suffix);
        let two = temp_name(digest, other_suffix);
        assert(decimal(suffix as nat) =~= one.subrange(head.len() as int, one.len() as int));
        assert(decimal(other_suffix as nat) =~= two.subrange(head.len() as int, two.len() as int));
        lemma_decimal_injective(suffix as nat, other_suffix as nat);
    }
}

/// What holds of two writers however far they have come: what neither
/// writer names is as it was, the final directory stays once it is there,
/// a writer that saw it was right, and a writer that is done has left the
/// final directory and not its temporary one.
spec fn writers_consistent(
    start: Set<Seq<char>>,
    now: TwoWriters,
    first_temp: Seq<char>,
    second_temp: Seq<char>,
    final_dir: Seq<char>,
) -> bool {
    &&& forall|name: Seq<char>|
        name != first_temp && name != second_temp && name != final_dir ==> (now.dirs.contains(name)
            <==> start.contains(name))
    &&& start.contains(final_dir) ==> now.dirs.contains(final_dir)
    &&& now.first == (WriterStage::Checked { found: true }) ==> now.dirs.contains(final_dir)
    &&& now.second == (WriterStage::Checked { found: true }) ==> now.dirs.contains(final_dir)
    &&& now.first is Done ==> now.dirs.contains(final_dir) && !now.dirs.contains(first_temp)
    &&& now.second is Done ==> now.dirs.contains(final_dir) && !now.dirs.contains(second_temp)
}

/// Two writers stay consistent over any schedule.
proof fn lemma_writers_consistent(
    dirs: Set<Seq<char>>,
    first_temp: Seq<char>,
    second_temp: Seq<char>,
    final_dir: Seq<char>,
    schedule: Seq<bool>,
)
    requires
        first_temp != second_temp,
        first_temp != final_dir,
        second_temp != final_dir,
    ensures
        writers_consistent(
            dirs,
            run_writers(
                TwoWriters { dirs, first: WriterStage::Fresh, second: WriterStage::Fresh },
                first_temp,
                second_temp,
                final_dir,
                schedule,
            ),
            first_temp,
            second_temp,
            final_dir,
        ),
    decreases schedule.len(),
{
    if schedule.len() > 0 {
        lemma_writers_consistent(dirs, first_temp, second_temp, final_dir, schedule.drop_last());
    }
}

/// Two writers for the same entry, each with a temporary directory of its
/// own, leave the entry's directory and neither temporary directory,
/// whatever the order of their steps; every other directory is as it was.
/// (The directories are taken as a set of names, and each step as done at
/// once and without fault.)
pub proof fn lemma_two_writers_leave_one_entry(
    dirs: Set<Seq<char>>,
    digest: Seq<u8>,
    first_suffix: u32,
    second_suffix: u32,
    schedule: Seq<bool>,
)
    requires
        first_suffix != second_suffix,
        ({
            let end = run_writers(
                TwoWriters { dirs, first: WriterStage::Fresh, second: WriterStage::Fresh },
                temp_name(digest, first_suffix),
                temp_name(digest, second_suffix),
                entry_name(digest),
                schedule,
            );
            end.first is Done && end.second is Done
        }),
    ensures
        run_writers(
            TwoWriters { dirs, first: WriterStage::Fresh, second: WriterStage::Fresh },
            temp_name(digest, first_suffix),
            temp_name(digest, second_suffix),
            entry_name(digest),
            schedule,
        ).dirs == dirs.insert(entry_name(digest)).remove(temp_name(digest, first_suffix)).remove(
            temp_name(digest, second_suffix),
        ),
{
    lemma_names_differ(digest, first_suffix, second_suffix);
    lemma_names_differ(digest, second_suffix, first_suffix);
    lemma_writers_consistent(
        dirs,
        temp_name(digest, first_suffix),
        temp_name(digest, second_suffix),
        entry_name(digest),
        schedule,
    );
    let end = run_writers(
        TwoWriters { dirs, first: WriterStage::Fresh, second: WriterStage::Fresh },
        temp_name(digest, first_suffix),
        temp_name(digest, second_suffix),
        entry_name(digest),
        schedule,
    );
    assert(end.dirs =~= dirs.insert(entry_name(digest)).remove(
        temp_name(digest, first_suffix),
    ).remove(temp_name(digest, second_suffix)));
}

/// A query for an entry whose directory is not there is a miss; once the
/// writer that it gives has taken its steps, with no other writer about,
/// the directory is there, the temporary one is not, and a query is a hit
/// on the entry's directory.
pub proof fn lemma_miss_then_hit(dirs: Set<Seq<char>>, digest: Seq<u8>, suffix: u32, later_suffix: u32)
    requires
        !dirs.contains(entry_name(digest)),
    ensures
        query_result(digest, dirs.contains(entry_name(digest)), suffix)
            == (CacheQueryResultView::Miss {
            temp_dir: temp_name(digest, suffix),
            final_dir: entry_name(digest),
        }),
        ({
            let temp_dir = temp_name(digest, suffix);
            let final_dir = entry_name(digest);
            let created = writer_step(dirs, WriterStage::Fresh, temp_dir, final_dir);
            let checked = writer_step(created.0, created.1, temp_dir, final_dir);
            let done = writer_step(checked.0, checked.1, temp_dir, final_dir);
            &&& done.1 is Done
            &&& done.0 == dirs.insert(final_dir).remove(temp_dir)
            &&& query_result(digest, done.0.contains(final_dir), later_suffix)
                == CacheQueryResultView::Hit(final_dir)
        }),
{
    lemma_names_differ(digest, suffix, later_suffix);
    let temp_dir = temp_name(digest, suffix);
    let final_dir = entry_name(digest);
    let created = writer_step(dirs, WriterStage::Fresh, temp_dir, final_dir);
    let checked = writer_step(created.0, created.1, temp_dir, final_dir);
    let done = writer_step(checked.0, checked.1, temp_dir, final_dir);
    assert(done.0 =~= dirs.insert(final_dir).remove(temp_dir));
}

} // verus!
