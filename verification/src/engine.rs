//! Snapshots of the matching engine: building one from filter text, storing and
//! restoring one, asking one, and deciding whether a stored one is reused.
//!
//! The engine itself is the `adblock` crate's. What it answers is not stated
//! here: each answer has a name, and the functions of this module say which
//! answer they hand on.
//!
//! The engine answers reliably only for what it compiled itself, or read back
//! from its own encoding of that. A [`Snapshot`] is an engine of that descent,
//! and only a snapshot is asked. Bytes from elsewhere that the engine happens to
//! accept may make it panic when asked, so the cache file is trusted to hold what
//! the daemon wrote: that is the one demand this module makes of its callers.

use vstd::prelude::*;
use adblock::lists::{FilterSet, ParseOptions};
use adblock::request::Request;
use adblock::Engine;
use crate::text::string_views;

verus! {

#[verifier::external_type_specification]
#[verifier::external_body]
pub struct ExEngine(adblock::Engine);

/// The snapshot that the engine compiles from a text of filter rules, keeping
/// the rules' source text or not (`debug`) and merging similar rules or not
/// (`optimize`).
pub uninterp spec fn compiled_with(corpus: Seq<char>, debug: bool, optimize: bool) -> Engine;

/// The snapshot that an engine made with `optimize` reads from stored bytes,
/// where it accepts them.
pub uninterp spec fn restored_with(bytes: Seq<u8>, optimize: bool) -> Option<Engine>;

/// The snapshot of a text of filter rules as this library compiles it: without
/// the rules' source text, with similar rules merged.
pub open spec fn compiled(corpus: Seq<char>) -> Engine {
    compiled_with(corpus, false, true)
}

/// The snapshot that stored bytes hold as this library reads them, where the
/// engine accepts them.
pub open spec fn restored(bytes: Seq<u8>) -> Option<Engine> {
    restored_with(bytes, true)
}

/// Whether a snapshot blocks the request for `url`, made by the page at `source`,
/// for a resource of type `kind`; `None` where the engine makes no request of the
/// three.
pub uninterp spec fn network_verdict(
    engine: Engine,
    url: Seq<char>,
    source: Seq<char>,
    kind: Seq<char>,
) -> Option<bool>;

/// The selectors that a snapshot hides on the page at `url` because of the
/// element ids and classes seen there, in the engine's order.
pub uninterp spec fn generic_selectors(
    engine: Engine,
    url: Seq<char>,
    ids: Seq<Seq<char>>,
    classes: Seq<Seq<char>>,
) -> Seq<Seq<char>>;

/// The selectors that a snapshot hides on the page at `url` whatever elements it
/// holds.
pub uninterp spec fn page_selectors(engine: Engine, url: Seq<char>) -> Set<Seq<char>>;

/// The bytes that the engine encodes a snapshot to, where it can encode it. The
/// engine writes its hash maps and sets in sorted order, so the bytes go by what
/// the snapshot holds alone.
pub uninterp spec fn encoded(engine: Engine) -> Option<Seq<u8>>;

/// Whether `engine` was compiled by the engine from some text of rules.
pub open spec fn is_compiled(engine: Engine) -> bool {
    exists|corpus: Seq<char>, debug: bool, optimize: bool|
        engine == #[trigger] compiled_with(corpus, debug, optimize)
}

/// Whether `engine` is what the engine reads from its own encoding of `parent`.
pub open spec fn is_copy_of(engine: Engine, parent: Engine, optimize: bool) -> bool {
    encoded(parent) matches Some(bytes) && restored_with(bytes, optimize) == Some(engine)
}

/// Whether `engine` comes from a compiled engine by encoding and reading back
/// `generations` times.
pub open spec fn descends(engine: Engine, generations: nat) -> bool
    decreases generations,
{
    if generations == 0 {
        is_compiled(engine)
    } else {
        exists|parent: Engine, optimize: bool|
            descends(parent, (generations - 1) as nat) && #[trigger] is_copy_of(
                engine,
                parent,
                optimize,
            )
    }
}

/// Whether an engine may be asked: it was compiled from rules, or read back from
/// the engine's own encoding of an engine that may be asked.
pub open spec fn sound(engine: Engine) -> bool {
    exists|generations: nat| #[trigger] descends(engine, generations)
}

/// Whether bytes are the daemon's own cache: the engine's encoding of an engine
/// that may be asked.
pub open spec fn own_cache(bytes: Seq<u8>) -> bool {
    exists|engine: Engine| sound(engine) && #[trigger] encoded(engine) == Some(bytes)
}

/// Whether two engines give the same answers to everything this library asks:
/// the same verdict on every request, and the same hidden selectors for every
/// page, ids and classes.
pub open spec fn answers_alike(a: Engine, b: Engine) -> bool {
    &&& forall|url: Seq<char>, source: Seq<char>, kind: Seq<char>| #[trigger]
        network_verdict(a, url, source, kind) == network_verdict(b, url, source, kind)
    &&& forall|url: Seq<char>, ids: Seq<Seq<char>>, classes: Seq<Seq<char>>| #[trigger]
        generic_selectors(a, url, ids, classes) == generic_selectors(b, url, ids, classes)
    &&& forall|url: Seq<char>| #[trigger] page_selectors(a, url) == page_selectors(b, url)
}

/// Whether `engine`, read from `bytes`, answers as every engine of sound descent
/// does whose encoding the bytes are.
pub open spec fn reads_back_alike(bytes: Seq<u8>, engine: Option<Engine>) -> bool {
    forall|parent: Engine|
        sound(parent) && #[trigger] encoded(parent) == Some(bytes) ==> (engine matches Some(copy)
            ==> answers_alike(copy, parent))
}

/// The four bytes that every stored snapshot starts with.
pub open spec fn snapshot_magic() -> Seq<u8> {
    seq![0xd1u8, 0xd9u8, 0x3au8, 0xafu8]
}

/// Whether bytes start as a stored snapshot does: the magic bytes, then the
/// format's version, 0.
pub open spec fn has_snapshot_header(bytes: Seq<u8>) -> bool {
    bytes.len() >= 5 && bytes.subrange(0, 4) == snapshot_magic() && bytes[4] == 0
}

/// `FilterSet::new`, `FilterSet::add_filter_list` with the default options and
/// `Engine::from_filter_set`: the engine compiled from one text of rules. The
/// contract only names the result.
#[verifier::external_body]
fn compile(corpus: &str, debug: bool, optimize: bool) -> (engine: Engine)
    ensures
        engine == compiled_with(corpus@, debug, optimize),
{
    let mut set = FilterSet::new(debug);
    set.add_filter_list(corpus, ParseOptions::default());
    Engine::from_filter_set(set, optimize)
}

/// `Engine::deserialize` on an engine from `Engine::new`: the engine read from
/// the bytes, or `None` where they are refused. The call reads the byte after the
/// magic bytes without looking at the length, so bytes that are the magic bytes
/// and nothing more are left out.
///
/// The contract names the result. It also claims that an engine read from the
/// encoding of an engine of sound descent answers as that engine does, in what
/// this library asks. The encoding holds the lists of blocking, important,
/// exception and generic-hide filters with each filter's mask, pattern, domains
/// and hostname, the class and id rules, the selectors for all pages, and the
/// hide and unhide rules of each host, and reading puts each back where it was.
/// What it leaves out (parameter removal, remove rules, the permissions of
/// scripts) enters neither the `matched` flag nor the hidden selectors. No tag
/// is enabled on either engine. That reading succeeds is not claimed.
#[verifier::external_body]
fn decode(bytes: &Vec<u8>, optimize: bool) -> (engine: Option<Engine>)
    requires
        bytes@ != snapshot_magic(),
    ensures
        engine == restored_with(bytes@, optimize),
        reads_back_alike(bytes@, engine),
{
    let mut engine = Engine::new(optimize);
    match engine.deserialize(bytes) {
        Ok(()) => Some(engine),
        Err(_) => None,
    }
}

/// `Engine::serialize_raw`: the bytes of the engine, or `None` where encoding
/// fails. The contract names the result, and claims of the bytes only how they
/// start: the call writes the magic bytes and the version before anything else.
#[verifier::external_body]
fn encode(engine: &Engine) -> (bytes: Option<Vec<u8>>)
    ensures
        match bytes {
            Some(b) => encoded(*engine) == Some(b@) && has_snapshot_header(b@),
            None => encoded(*engine) is None,
        },
{
    engine.serialize_raw().ok()
}

/// `Request::new`, then `Engine::check_network_request`: the `matched` flag of
/// the engine's answer, or `None` where no request can be made of the three
/// texts. The contract only names the result. The second call panics on a filter
/// that is anchored to a hostname and has none. The rule parser makes no such
/// filter, and the engine's encoding carries filters over as they are, but
/// reading other bytes may make one: so only an engine of sound descent is
/// admitted.
#[verifier::external_body]
fn check_request(engine: &Engine, url: &str, source: &str, kind: &str) -> (verdict: Option<bool>)
    requires
        sound(*engine),
    ensures
        verdict == network_verdict(*engine, url@, source@, kind@),
{
    match Request::new(url, source, kind) {
        Ok(request) => Some(engine.check_network_request(&request).matched),
        Err(_) => None,
    }
}

/// `Engine::url_cosmetic_resources`, then `Engine::hidden_class_id_selectors`
/// with the exceptions of the first answer. The first part of the result is what
/// the second call returns, which the contract names. The second part holds the
/// first answer's `hide_selectors`, a hash set: the contract names the set and
/// claims that each member occurs once, and nothing of their order. The first
/// call panics on a filter that is anchored to a hostname and has none, and on a
/// script injection whose text does not parse. The rule parser makes neither,
/// and the engine's encoding carries both over as they are, but reading other
/// bytes may make one: so only an engine of sound descent is admitted.
#[verifier::external_body]
fn cosmetic_selectors(engine: &Engine, url: &str, ids: &Vec<String>, classes: &Vec<String>) -> (found:
    (Vec<String>, Vec<String>))
    requires
        sound(*engine),
    ensures
        string_views(found.0@) == generic_selectors(
            *engine,
            url@,
            string_views(ids@),
            string_views(classes@),
        ),
        string_views(found.1@).to_set() == page_selectors(*engine, url@),
        string_views(found.1@).no_duplicates(),
{
    let resources = engine.url_cosmetic_resources(url);
    let generic = engine.hidden_class_id_selectors(classes, ids, &resources.exceptions);
    (generic, resources.hide_selectors.into_iter().collect())
}

/// The texts one after the other, in order.
pub open spec fn concat(texts: Seq<Seq<char>>) -> Seq<char>
    decreases texts.len(),
{
    if texts.len() == 0 {
        Seq::empty()
    } else {
        concat(texts.drop_last()) + texts.last()
    }
}

/// Joins the contents of the list files, in the order given, into one text of
/// rules.
pub fn assemble_corpus(files: &Vec<String>) -> (corpus: String)
    ensures
        corpus@ == concat(string_views(files@)),
{
    let mut corpus = String::new();
    let mut i: usize = 0;
    while i < files.len()
        invariant
            i <= files.len(),
            corpus@ == concat(string_views(files@).take(i as int)),
        decreases files.len() - i,
    {
        proof {
            let longer = string_views(files@).take(i + 1);
            assert(longer.drop_last() == string_views(files@).take(i as int));
            assert(longer.last() == files@[i as int]@);
        }
        corpus.append(files[i].as_str());
        i += 1;
    }
    assert(string_views(files@).take(files.len() as int) == string_views(files@));
    corpus
}

/// A snapshot of the matching engine that may be asked: an engine compiled from
/// rules, or read back from the engine's own encoding of such a one.
pub struct Snapshot {
    engine: Engine,
}

impl Snapshot {
    /// The engine of the snapshot.
    pub closed spec fn engine(&self) -> Engine {
        self.engine
    }

    #[verifier::type_invariant]
    spec fn of_sound_descent(&self) -> bool {
        sound(self.engine)
    }
}

/// The engine of a snapshot that may be missing.
pub open spec fn engine_of(snapshot: Option<Snapshot>) -> Option<Engine> {
    match snapshot {
        Some(s) => Some(s.engine()),
        None => None,
    }
}

/// The view of bytes that may be missing.
pub open spec fn bytes_of(bytes: Option<Vec<u8>>) -> Option<Seq<u8>> {
    match bytes {
        Some(b) => Some(b@),
        None => None,
    }
}

/// Compiles a snapshot from a text of filter rules. The rules' source text is
/// not kept, and similar rules are merged.
pub fn build_snapshot(corpus: &str) -> (snapshot: Snapshot)
    ensures
        snapshot.engine() == compiled(corpus@),
{
    let engine = compile(corpus, false, true);
    proof {
        assert(is_compiled(engine));
        assert(descends(engine, 0));
    }
    Snapshot { engine }
}

/// Whether `bytes` is what storing a snapshot gives: the engine's encoding of the
/// snapshot, which starts as a stored snapshot does and is therefore read back by
/// the engine itself, or nothing where the engine cannot encode the snapshot.
pub open spec fn is_stored(engine: Engine, bytes: Option<Seq<u8>>) -> bool {
    &&& bytes == encoded(engine)
    &&& bytes matches Some(b) ==> has_snapshot_header(b) && readable(b) == restored(b)
}

/// The bytes under which a snapshot is stored: the engine's encoding of it, or
/// `None` where the engine cannot encode it. The bytes are the daemon's own
/// cache, which may be restored later.
pub fn store_snapshot(snapshot: &Snapshot) -> (bytes: Option<Vec<u8>>)
    ensures
        is_stored(snapshot.engine(), bytes_of(bytes)),
        bytes matches Some(b) ==> own_cache(b@),
{
    let bytes = encode(&snapshot.engine);
    proof {
        use_type_invariant(snapshot);
        if bytes is Some {
            assert(bytes->0@.subrange(0, 4).len() == 4);
            assert(encoded(snapshot.engine) == Some(bytes->0@));
        }
    }
    bytes
}

/// The snapshot that stored bytes give: none where they are cut off right after
/// the magic bytes, else what the engine reads from them.
pub open spec fn readable(bytes: Seq<u8>) -> Option<Engine> {
    if bytes == snapshot_magic() {
        None
    } else {
        restored(bytes)
    }
}

/// Whether bytes can be trusted as a cache: where they give a snapshot at all,
/// they are the daemon's own. Bytes that the engine refuses are harmless.
pub open spec fn trusted_cache(bytes: Seq<u8>) -> bool {
    readable(bytes) is Some ==> own_cache(bytes)
}

/// An engine read back from the daemon's own cache may be asked.
pub proof fn lemma_own_cache_restores_sound(bytes: Seq<u8>, optimize: bool, engine: Engine)
    requires
        own_cache(bytes),
        restored_with(bytes, optimize) == Some(engine),
    ensures
        sound(engine),
{
    let parent = choose|e: Engine| sound(e) && #[trigger] encoded(e) == Some(bytes);
    let generations = choose|n: nat| #[trigger] descends(parent, n);
    assert(is_copy_of(engine, parent, optimize));
    assert(descends(engine, generations + 1));
}

/// Restores a snapshot from stored bytes, or gives `None` where they hold none.
///
/// The bytes are trusted: where the engine accepts them, they must be what the
/// daemon stored. Nothing at run time can tell, so the caller answers for where
/// the bytes come from.
pub fn restore_snapshot(bytes: &Vec<u8>) -> (snapshot: Option<Snapshot>)
    requires
        trusted_cache(bytes@),
    ensures
        engine_of(snapshot) == readable(bytes@),
        reads_back_alike(bytes@, engine_of(snapshot)),
{
    if bytes.len() == 4 && bytes[0] == 0xd1 && bytes[1] == 0xd9 && bytes[2] == 0x3a && bytes[3]
        == 0xaf {
        assert(bytes@ == snapshot_magic());
        None
    } else {
        assert(bytes@ != snapshot_magic()) by {
            if bytes@ == snapshot_magic() {
                assert(bytes@.len() == 4);
                assert(bytes@[0] == 0xd1 && bytes@[1] == 0xd9 && bytes@[2] == 0x3a && bytes@[3]
                    == 0xaf);
            }
        }
        match decode(bytes, true) {
            None => None,
            Some(engine) => {
                proof {
                    lemma_own_cache_restores_sound(bytes@, true, engine);
                }
                Some(Snapshot { engine })
            },
        }
    }
}

/// Where a snapshot is taken from.
#[derive(Clone, Copy, Debug, PartialEq, Eq, Structural)]
pub enum Source {
    /// The stored snapshot is read and tried.
    Cache,
    /// The list files are read and compiled.
    Lists,
}

/// Where the snapshot is looked for first: in the cache where the registry did
/// not change and a cache file exists, else in the lists.
pub open spec fn first_source_of(registry_changed: bool, cache_exists: bool) -> Source {
    if !registry_changed && cache_exists {
        Source::Cache
    } else {
        Source::Lists
    }
}

/// Decides where the snapshot is looked for first.
pub fn first_source(registry_changed: bool, cache_exists: bool) -> (source: Source)
    ensures
        source == first_source_of(registry_changed, cache_exists),
{
    if !registry_changed && cache_exists {
        Source::Cache
    } else {
        Source::Lists
    }
}

/// What looking into the cache gives.
pub enum CacheOutcome {
    /// The stored snapshot is good and is the one to use.
    Reuse(Snapshot),
    /// The cache could not be read or holds no snapshot: compile the lists, once.
    Rebuild,
}

impl CacheOutcome {
    /// The engine of the snapshot to reuse, where there is one.
    pub open spec fn reused(&self) -> Option<Engine> {
        match self {
            CacheOutcome::Reuse(snapshot) => Some(snapshot.engine()),
            CacheOutcome::Rebuild => None,
        }
    }
}

/// The engine that the content of the cache file gives, `None` standing for a
/// file that could not be read or that holds no snapshot.
pub open spec fn cached(cache: Option<Seq<u8>>) -> Option<Engine> {
    match cache {
        None => None,
        Some(bytes) => readable(bytes),
    }
}

/// Tries the cache: the content of the cache file, or `None` where reading it
/// failed. A snapshot that the content gives is reused; anything else leads to a
/// rebuild.
///
/// The content is trusted: where the engine accepts it, it must be what the
/// daemon stored. Nothing at run time can tell, so the caller answers for the
/// file.
pub fn consult_cache(cache: Option<Vec<u8>>) -> (outcome: CacheOutcome)
    requires
        cache matches Some(bytes) ==> trusted_cache(bytes@),
    ensures
        outcome.reused() == cached(bytes_of(cache)),
        cache matches Some(bytes) ==> reads_back_alike(bytes@, outcome.reused()),
{
    match cache {
        None => CacheOutcome::Rebuild,
        Some(bytes) => match restore_snapshot(&bytes) {
            None => CacheOutcome::Rebuild,
            Some(snapshot) => CacheOutcome::Reuse(snapshot),
        },
    }
}

/// What a later start finds in the cache where `snapshot` is stored there now:
/// the snapshot that the engine reads from its own encoding of this one. Where
/// that gives a snapshot, it answers as this one does.
pub fn reread(snapshot: &Snapshot) -> (outcome: CacheOutcome)
    ensures
        outcome.reused() == cached(encoded(snapshot.engine())),
        outcome.reused() matches Some(copy) ==> answers_alike(copy, snapshot.engine()),
{
    proof {
        use_type_invariant(snapshot);
    }
    let bytes = store_snapshot(snapshot);
    let outcome = consult_cache(bytes);
    proof {
        if outcome.reused() is Some {
            assert(encoded(snapshot.engine()) == Some(bytes->0@));
        }
    }
    outcome
}

/// A snapshot compiled from the lists, with the bytes to store it under where the
/// engine could encode it.
pub struct Rebuilt {
    pub engine: Snapshot,
    pub cache: Option<Vec<u8>>,
}

/// Compiles the snapshot of the list files' contents, taken in the order given,
/// and encodes it for the cache. A snapshot that cannot be encoded is still
/// handed out.
pub fn rebuild(files: &Vec<String>) -> (rebuilt: Rebuilt)
    ensures
        rebuilt.engine.engine() == compiled(concat(string_views(files@))),
        is_stored(rebuilt.engine.engine(), bytes_of(rebuilt.cache)),
        rebuilt.cache matches Some(b) ==> own_cache(b@),
{
    let corpus = assemble_corpus(files);
    let engine = build_snapshot(corpus.as_str());
    let cache = store_snapshot(&engine);
    Rebuilt { engine, cache }
}

/// Asks a snapshot whether it blocks a request. `None` means that the engine makes
/// no request of the three texts.
pub fn network_blocked(snapshot: &Snapshot, url: &str, source: &str, kind: &str) -> (verdict:
    Option<bool>)
    ensures
        verdict == network_verdict(snapshot.engine(), url@, source@, kind@),
{
    proof {
        use_type_invariant(snapshot);
    }
    check_request(&snapshot.engine, url, source, kind)
}

/// Whether `selectors` is what a snapshot hides on the page at `url`, given the
/// ids and classes seen there: the selectors for those ids and classes in the
/// engine's order, then the page's own selectors, each once, in some order.
pub open spec fn hides(
    engine: Engine,
    url: Seq<char>,
    ids: Seq<Seq<char>>,
    classes: Seq<Seq<char>>,
    selectors: Seq<Seq<char>>,
) -> bool {
    let generic = generic_selectors(engine, url, ids, classes);
    &&& generic.len() <= selectors.len()
    &&& selectors.take(generic.len() as int) == generic
    &&& selectors.skip(generic.len() as int).to_set() == page_selectors(engine, url)
    &&& selectors.skip(generic.len() as int).no_duplicates()
}

/// The selectors that a snapshot hides on the page at `url`, given the element ids
/// and classes seen there.
pub fn hidden_selectors(snapshot: &Snapshot, url: &str, ids: &Vec<String>, classes: &Vec<String>) -> (selectors:
    Vec<String>)
    ensures
        hides(
            snapshot.engine(),
            url@,
            string_views(ids@),
            string_views(classes@),
            string_views(selectors@),
        ),
{
    proof {
        use_type_invariant(snapshot);
    }
    let (mut selectors, mut page) = cosmetic_selectors(&snapshot.engine, url, ids, classes);
    let ghost generic = string_views(selectors@);
    let ghost rest = string_views(page@);
    selectors.append(&mut page);
    proof {
        let all = string_views(selectors@);
        assert(all.take(generic.len() as int) == generic);
        assert(all.skip(generic.len() as int) == rest);
    }
    selectors
}

/// A good cache is reused where the registry did not change: the cache is looked
/// into first, and looking into it gives the stored snapshot, not a rebuild.
pub proof fn law_good_cache_is_reused(bytes: Seq<u8>, outcome: CacheOutcome)
    requires
        readable(bytes) is Some,
        outcome.reused() == cached(Some(bytes)),
    ensures
        first_source_of(false, true) == Source::Cache,
        outcome is Reuse,
        outcome.reused() == readable(bytes),
{
}

/// A stored snapshot that is read back answers as it did: where the cache holds
/// the encoding of a snapshot and looking into it gives a snapshot, the two give
/// the same verdict on every request and hide the same selectors on every page.
pub proof fn law_stored_snapshot_answers_alike(
    stored: Snapshot,
    cache: Seq<u8>,
    outcome: CacheOutcome,
)
    requires
        sound(stored.engine()),
        is_stored(stored.engine(), Some(cache)),
        outcome.reused() == cached(Some(cache)),
        reads_back_alike(cache, outcome.reused()),
    ensures
        outcome.reused() matches Some(copy) ==> answers_alike(copy, stored.engine()),
{
    assert(encoded(stored.engine()) == Some(cache));
}

/// A changed registry, a missing cache file and a cache that holds no snapshot
/// each lead to the lists, and from there nothing leads back to the cache.
pub proof fn law_bad_cache_leads_to_rebuild(
    registry_changed: bool,
    cache_exists: bool,
    cache: Option<Seq<u8>>,
    outcome: CacheOutcome,
)
    requires
        outcome.reused() == cached(cache),
    ensures
        registry_changed || !cache_exists ==> first_source_of(registry_changed, cache_exists)
            == Source::Lists,
        cache is None || readable(cache->0) is None ==> outcome is Rebuild,
{
}

} // verus!
