//! The per-scope index store: a persistent inverted index with open-or-create
//! semantics, delete-before-add document identity, explicit commits and
//! point-in-time reader snapshots.
//!
//! The persistent index itself is the `tantivy` crate's; its contents are
//! modeled as a sequence of `(path, filename, extension)` documents through
//! two names, the committed contents (what a fresh snapshot sees) and the
//! staged contents (what the next commit will make committed). Every wrapper
//! around a `tantivy` call states how it moves those two sequences.

use vstd::prelude::*;
use vstd::string::StringSliceAdditionalSpecFns;
use tantivy::schema::{STORED, STRING, TEXT};
use tantivy::{Index, TantivyError};
use crate::rules::{ext_chars, ext_of, file_name_chars, file_name_of};
use crate::text::{chars_of, lower_chars, lower_seq, string_from_chars};

verus! {

#[verifier::external_type_specification]
#[verifier::external_body]
pub struct ExField(tantivy::schema::Field);

#[verifier::external_type_specification]
#[verifier::external_body]
pub struct ExSearcher(tantivy::Searcher);

/// One scope's index store: the persistent index, its single writer, and the
/// three schema field handles. At most one store may be open per directory
/// at a time (the writer holds the directory lock). The writer's generic
/// document parameter keeps its type from being declared to the verifier, so
/// the handles live in an opaque struct and every operation goes through the
/// trusted wrappers below.
#[verifier::external_body]
pub struct ScopeStore {
    index: tantivy::Index,
    writer: tantivy::IndexWriter<tantivy::TantivyDocument>,
    path_field: tantivy::schema::Field,
    name_field: tantivy::schema::Field,
    ext_field: tantivy::schema::Field,
}

/// A point-in-time, read-only view of a store's committed contents; it does
/// not observe commits made after it was taken.
pub struct Snapshot {
    searcher: tantivy::Searcher,
    path_field: tantivy::schema::Field,
}

/// The longest value, in UTF-8 bytes, that the index keeps as a single
/// term: the indexing pipeline silently drops longer tokens, so a path
/// beyond this bound would be stored but never reachable — or removable —
/// through its path term. Term-addressed operations require paths within
/// this bound.
pub const MAX_PATH_TERM_BYTES: usize = 65530;

/// The three outcomes of opening a store: freshly created, opened as it
/// already existed, or a hard error.
pub enum OpenOutcome {
    Created(ScopeStore),
    Opened(ScopeStore),
}

/// The committed documents of a store, as `(path, filename, extension)`
/// rows: what a fresh snapshot sees.
pub uninterp spec fn store_committed(s: &ScopeStore) -> Seq<(Seq<char>, Seq<char>, Seq<char>)>;

/// The staged documents of a store: what the next commit will make
/// committed.
pub uninterp spec fn store_staged(s: &ScopeStore) -> Seq<(Seq<char>, Seq<char>, Seq<char>)>;

/// The documents a snapshot sees.
pub uninterp spec fn snapshot_docs(s: &Snapshot) -> Seq<(Seq<char>, Seq<char>, Seq<char>)>;

/// The documents of `docs` whose path is exactly `p`.
pub open spec fn docs_with_path(
    docs: Seq<(Seq<char>, Seq<char>, Seq<char>)>,
    p: Seq<char>,
) -> Seq<(Seq<char>, Seq<char>, Seq<char>)> {
    docs.filter(|d: (Seq<char>, Seq<char>, Seq<char>)| d.0 == p)
}

/// The documents of `docs` whose path is not `p`.
pub open spec fn without_path(
    docs: Seq<(Seq<char>, Seq<char>, Seq<char>)>,
    p: Seq<char>,
) -> Seq<(Seq<char>, Seq<char>, Seq<char>)> {
    docs.filter(|d: (Seq<char>, Seq<char>, Seq<char>)| d.0 != p)
}

/// The document row the store holds for a filesystem entry: its path, its
/// file name, and its extension folded to lower case.
pub open spec fn doc_for(p: Seq<char>) -> (Seq<char>, Seq<char>, Seq<char>) {
    (p, file_name_of(p), lower_seq(ext_of(file_name_of(p))))
}

proof fn lemma_docs_with_path_push(
    docs: Seq<(Seq<char>, Seq<char>, Seq<char>)>,
    p: Seq<char>,
    d: (Seq<char>, Seq<char>, Seq<char>),
)
    ensures
        d.0 == p ==> docs_with_path(docs.push(d), p) == docs_with_path(docs, p).push(d),
        d.0 != p ==> docs_with_path(docs.push(d), p) == docs_with_path(docs, p),
{
    reveal(Seq::filter);
    assert(docs.push(d).drop_last() =~= docs);
}

proof fn lemma_without_path_none_left(docs: Seq<(Seq<char>, Seq<char>, Seq<char>)>, p: Seq<char>)
    ensures
        docs_with_path(without_path(docs, p), p) =~= Seq::empty(),
    decreases docs.len(),
{
    reveal(Seq::filter);
    if docs.len() > 0 {
        lemma_without_path_none_left(docs.drop_last(), p);
        assert(without_path(docs, p) == if docs.last().0 != p {
            without_path(docs.drop_last(), p).push(docs.last())
        } else {
            without_path(docs.drop_last(), p)
        });
        if docs.last().0 != p {
            lemma_docs_with_path_push(without_path(docs.drop_last(), p), p, docs.last());
        }
    }
}

/// Relies on `tantivy::Index::create_in_dir` (a fresh index in an existing
/// directory holds no documents; when one is already present it fails with
/// `IndexAlreadyExists`), `tantivy::Index::open_in_dir`, and
/// `tantivy::Index::writer_with_num_threads` (a new writer has no pending
/// operations, so the staged contents equal the committed contents). The
/// schema is the fixed three-field one: `path` raw-indexed and stored,
/// `filename` tokenized and stored, `extension` raw-indexed and stored.
#[verifier::external_body]
fn store_open(dir: &str) -> (r: Result<(ScopeStore, bool), String>)
    ensures
        match r {
            Ok(p) => store_staged(&p.0) == store_committed(&p.0) && (p.1 ==> store_committed(
                &p.0,
            ) == Seq::<(Seq<char>, Seq<char>, Seq<char>)>::empty()),
            Err(_) => true,
        },
{
    let mut b = tantivy::schema::Schema::builder();
    let path_field = b.add_text_field("path", STORED | STRING);
    let name_field = b.add_text_field("filename", TEXT | STORED);
    let ext_field = b.add_text_field("extension", STRING | STORED);
    let (index, created) = match Index::create_in_dir(dir, b.build()) {
        Ok(ix) => (ix, true),
        Err(TantivyError::IndexAlreadyExists) => {
            (Index::open_in_dir(dir).map_err(|e| e.to_string())?, false)
        },
        Err(e) => return Err(e.to_string()),
    };
    let writer = index.writer_with_num_threads(2, 50_000_000).map_err(|e| e.to_string())?;
    Ok((ScopeStore { index, writer, path_field, name_field, ext_field }, created))
}

/// Relies on `tantivy::IndexWriter::add_document`: stages one document for
/// the next commit; committed contents move only at commit.
#[verifier::external_body]
fn store_add(s: &mut ScopeStore, path: &str, name: &str, ext: &str) -> (r: Result<(), String>)
    ensures
        store_committed(final(s)) == store_committed(old(s)),
        match r {
            Ok(_) => store_staged(final(s)) == store_staged(old(s)).push((path@, name@, ext@)),
            Err(_) => store_staged(final(s)) == store_staged(old(s)),
        },
{
    let mut d = tantivy::TantivyDocument::default();
    d.add_text(s.path_field, path);
    d.add_text(s.name_field, name);
    d.add_text(s.ext_field, ext);
    match s.writer.add_document(d) {
        Ok(_) => Ok(()),
        Err(e) => Err(e.to_string()),
    }
}

/// Relies on `tantivy::IndexWriter::delete_term`: marks every document whose
/// raw-indexed `path` field equals the given value — including ones staged
/// earlier in this transaction — for removal at the next commit. The value
/// must fit in one index term, else its documents were never indexed under
/// it and the delete would touch nothing.
#[verifier::external_body]
fn store_delete_path(s: &mut ScopeStore, path: &str)
    requires
        path.spec_bytes().len() <= MAX_PATH_TERM_BYTES,
    ensures
        store_committed(final(s)) == store_committed(old(s)),
        store_staged(final(s)) == without_path(store_staged(old(s)), path@),
{
    let term = tantivy::Term::from_field_text(s.path_field, path);
    s.writer.delete_term(term);
}

/// Relies on `tantivy::IndexWriter::commit`: durably applies the staged
/// operations; a snapshot taken afterwards sees exactly what was staged.
/// Merge work may continue in the background; it never changes the live
/// document set.
#[verifier::external_body]
fn store_commit(s: &mut ScopeStore) -> (r: Result<(), String>)
    ensures
        match r {
            Ok(_) => store_committed(final(s)) == store_staged(old(s)) && store_staged(final(s))
                == store_staged(old(s)),
            Err(_) => true,
        },
{
    match s.writer.commit() {
        Ok(_) => Ok(()),
        Err(e) => Err(e.to_string()),
    }
}

/// Relies on `tantivy::Index::reader`, `tantivy::IndexReader::reload` and
/// `tantivy::IndexReader::searcher`: a freshly reloaded reader's searcher is
/// a point-in-time view of the last committed contents.
#[verifier::external_body]
fn store_snapshot(s: &ScopeStore) -> (r: Result<Snapshot, String>)
    ensures
        match r {
            Ok(sn) => snapshot_docs(&sn) == store_committed(s),
            Err(_) => true,
        },
{
    let reader = match s.index.reader() {
        Ok(rd) => rd,
        Err(e) => return Err(e.to_string()),
    };
    if let Err(e) = reader.reload() {
        return Err(e.to_string());
    }
    Ok(Snapshot { searcher: reader.searcher(), path_field: s.path_field })
}

/// Relies on `tantivy::Searcher::num_docs`: the number of live documents in
/// the snapshot.
#[verifier::external_body]
fn snap_num_docs(snap: &Snapshot) -> (r: u64)
    ensures
        r as nat == snapshot_docs(snap).len(),
{
    snap.searcher.num_docs()
}

/// Relies on `tantivy::query::TermQuery` over the raw-indexed `path` field
/// together with the `tantivy::collector::Count` collector: counts the live
/// documents whose `path` equals the given value exactly. The value must
/// fit in one index term, else its documents were never indexed under it
/// and the query would find nothing.
#[verifier::external_body]
fn snap_count_path(snap: &Snapshot, path: &str) -> (r: Result<u64, String>)
    requires
        path.spec_bytes().len() <= MAX_PATH_TERM_BYTES,
    ensures
        match r {
            Ok(n) => n as nat == docs_with_path(snapshot_docs(snap), path@).len(),
            Err(_) => true,
        },
{
    let term = tantivy::Term::from_field_text(snap.path_field, path);
    let q = tantivy::query::TermQuery::new(term, tantivy::schema::IndexRecordOption::Basic);
    match snap.searcher.search(&q, &tantivy::collector::Count) {
        Ok(n) => Ok(n as u64),
        Err(e) => Err(e.to_string()),
    }
}

/// Opens the index store in `dir`, or creates it there with the fixed
/// three-field schema when none exists yet. A store that was created
/// concurrently by another caller is opened rather than reported as an
/// error; the outcome says which of the two happened. A freshly created
/// store is empty, and an opened store starts with nothing staged.
pub fn open_or_create(dir: &str) -> (r: Result<OpenOutcome, String>)
    ensures
        match r {
            Ok(OpenOutcome::Created(s)) => store_staged(&s) == store_committed(&s)
                && store_committed(&s) == Seq::<(Seq<char>, Seq<char>, Seq<char>)>::empty(),
            Ok(OpenOutcome::Opened(s)) => store_staged(&s) == store_committed(&s),
            Err(_) => true,
        },
{
    match store_open(dir) {
        Ok(p) => {
            let (s, created) = p;
            if created {
                Ok(OpenOutcome::Created(s))
            } else {
                Ok(OpenOutcome::Opened(s))
            }
        },
        Err(e) => Err(e),
    }
}

/// A fresh point-in-time view of the store's committed contents. The view
/// is pinned when it is taken: commits made afterwards are not observed
/// until a new reader is requested.
pub fn reader(s: &ScopeStore) -> (r: Result<Snapshot, String>)
    ensures
        match r {
            Ok(sn) => snapshot_docs(&sn) == store_committed(s),
            Err(_) => true,
        },
{
    store_snapshot(s)
}

/// The number of documents a snapshot sees.
pub fn snapshot_doc_count(sn: &Snapshot) -> (r: u64)
    ensures
        r as nat == snapshot_docs(sn).len(),
{
    snap_num_docs(sn)
}

/// The number of documents a snapshot sees for one exact path.
pub fn snapshot_count_for_path(sn: &Snapshot, path: &str) -> (r: Result<u64, String>)
    requires
        path.spec_bytes().len() <= MAX_PATH_TERM_BYTES,
    ensures
        match r {
            Ok(n) => n as nat == docs_with_path(snapshot_docs(sn), path@).len(),
            Err(_) => true,
        },
{
    snap_count_path(sn, path)
}

/// The number of committed documents in the store, read through a fresh
/// snapshot.
pub fn committed_count(s: &ScopeStore) -> (r: Result<u64, String>)
    ensures
        match r {
            Ok(n) => n as nat == store_committed(s).len(),
            Err(_) => true,
        },
{
    match store_snapshot(s) {
        Ok(sn) => Ok(snap_num_docs(&sn)),
        Err(e) => Err(e),
    }
}

/// The number of committed documents whose path equals `path` exactly.
pub fn committed_count_for_path(s: &ScopeStore, path: &str) -> (r: Result<u64, String>)
    requires
        path.spec_bytes().len() <= MAX_PATH_TERM_BYTES,
    ensures
        match r {
            Ok(n) => n as nat == docs_with_path(store_committed(s), path@).len(),
            Err(_) => true,
        },
{
    match store_snapshot(s) {
        Ok(sn) => snap_count_path(&sn, path),
        Err(e) => Err(e),
    }
}

/// The file-name and lowercased-extension strings of a path, as the store's
/// document fields hold them.
fn doc_strings(path: &str) -> (r: (String, String))
    ensures
        r.0@ == file_name_of(path@),
        r.1@ == lower_seq(ext_of(file_name_of(path@))),
{
    let pathv: Vec<char> = chars_of(path);
    let namev: Vec<char> = file_name_chars(&pathv);
    let extv: Vec<char> = ext_chars(&namev);
    let ext_l: Vec<char> = lower_chars(&extv);
    (string_from_chars(&namev), string_from_chars(&ext_l))
}

/// Stages the document for `path` — its path, file name and lowercased
/// extension — without deleting prior documents and without committing:
/// the bulk-crawl write path, where the final commit comes separately.
pub fn stage_doc(s: &mut ScopeStore, path: &str) -> (r: Result<(), String>)
    ensures
        store_committed(final(s)) == store_committed(old(s)),
        match r {
            Ok(_) => store_staged(final(s)) == store_staged(old(s)).push(doc_for(path@)),
            Err(_) => store_staged(final(s)) == store_staged(old(s)),
        },
{
    let fields: (String, String) = doc_strings(path);
    store_add(s, path, fields.0.as_str(), fields.1.as_str())
}

/// Durably applies the staged operations: afterwards the committed contents
/// are exactly what was staged.
pub fn commit(s: &mut ScopeStore) -> (r: Result<(), String>)
    ensures
        match r {
            Ok(_) => store_committed(final(s)) == store_staged(old(s)) && store_staged(final(s))
                == store_staged(old(s)),
            Err(_) => true,
        },
{
    store_commit(s)
}

/// Indexes the filesystem entry at `path`: removes whatever documents the
/// path had (delete-before-add identity), stages one fresh document holding
/// the path, its file name and its lowercased extension, and commits. On
/// success exactly one live document exists for the path, carrying the
/// latest field values. The path must fit in one index term.
pub fn index_entry(s: &mut ScopeStore, path: &str) -> (r: Result<(), String>)
    requires
        path.spec_bytes().len() <= MAX_PATH_TERM_BYTES,
    ensures
        match r {
            Ok(_) => {
                &&& store_committed(final(s)) == without_path(
                    store_staged(old(s)),
                    path@,
                ).push(doc_for(path@))
                &&& store_staged(final(s)) == store_committed(final(s))
                &&& docs_with_path(store_committed(final(s)), path@) =~= seq![doc_for(path@)]
            },
            Err(_) => true,
        },
{
    let fields: (String, String) = doc_strings(path);
    store_delete_path(s, path);
    let ghost cleared = store_staged(s);
    if let Err(e) = store_add(s, path, fields.0.as_str(), fields.1.as_str()) {
        return Err(e);
    }
    if let Err(e) = store_commit(s) {
        return Err(e);
    }
    proof {
        lemma_docs_with_path_push(cleared, path@, doc_for(path@));
        lemma_without_path_none_left(store_staged(old(s)), path@);
    }
    Ok(())
}

/// Removes every document for `path` — committed or staged — and commits;
/// afterwards no live document for the path remains. The path must fit in
/// one index term.
pub fn remove_path(s: &mut ScopeStore, path: &str) -> (r: Result<(), String>)
    requires
        path.spec_bytes().len() <= MAX_PATH_TERM_BYTES,
    ensures
        match r {
            Ok(_) => {
                &&& store_committed(final(s)) == without_path(store_staged(old(s)), path@)
                &&& store_staged(final(s)) == store_committed(final(s))
                &&& docs_with_path(store_committed(final(s)), path@) =~= Seq::empty()
            },
            Err(_) => true,
        },
{
    store_delete_path(s, path);
    if let Err(e) = store_commit(s) {
        return Err(e);
    }
    proof {
        lemma_without_path_none_left(store_staged(old(s)), path@);
    }
    Ok(())
}

/// Indexes an application bundle: a path without the bundle extension is
/// ignored (the result says whether anything happened); a bundle path is
/// indexed with delete-before-add identity, like any other entry. The path
/// must fit in one index term.
pub fn index_app_entry(s: &mut ScopeStore, path: &str) -> (r: Result<bool, String>)
    requires
        path.spec_bytes().len() <= MAX_PATH_TERM_BYTES,
    ensures
        match r {
            Ok(acted) => {
                &&& acted == crate::rules::is_app_path(path@)
                &&& !acted ==> store_committed(final(s)) == store_committed(old(s))
                    && store_staged(final(s)) == store_staged(old(s))
                &&& acted ==> store_committed(final(s)) == without_path(
                    store_staged(old(s)),
                    path@,
                ).push(doc_for(path@)) && store_staged(final(s)) == store_committed(final(s))
                    && docs_with_path(store_committed(final(s)), path@) =~= seq![doc_for(path@)]
            },
            Err(_) => true,
        },
{
    if !crate::rules::app_path(path) {
        return Ok(false);
    }
    match index_entry(s, path) {
        Ok(_) => Ok(true),
        Err(e) => Err(e),
    }
}

/// Removes an application bundle from the index: a path without the bundle
/// extension is ignored; for a bundle path every document is removed and
/// the removal committed. The path must fit in one index term.
pub fn remove_app_entry(s: &mut ScopeStore, path: &str) -> (r: Result<bool, String>)
    requires
        path.spec_bytes().len() <= MAX_PATH_TERM_BYTES,
    ensures
        match r {
            Ok(acted) => {
                &&& acted == crate::rules::is_app_path(path@)
                &&& !acted ==> store_committed(final(s)) == store_committed(old(s))
                    && store_staged(final(s)) == store_staged(old(s))
                &&& acted ==> store_committed(final(s)) == without_path(
                    store_staged(old(s)),
                    path@,
                ) && store_staged(final(s)) == store_committed(final(s)) && docs_with_path(
                    store_committed(final(s)),
                    path@,
                ) =~= Seq::empty()
            },
            Err(_) => true,
        },
{
    if !crate::rules::app_path(path) {
        return Ok(false);
    }
    match remove_path(s, path) {
        Ok(_) => Ok(true),
        Err(e) => Err(e),
    }
}

} // verus!
