use vstd::prelude::*;
use vstd::slice::slice_subrange;
use vstd::string::*;
use vstd::utf8::{decode_utf8, encode_utf8, valid_utf8};
use crate::catalog::Catalog;
use crate::text::text_eq;

verus! {

/// Failures of the document session registry.
#[derive(Debug, Clone, Copy, PartialEq, Eq, Structural)]
pub enum DocError {
    /// No session is open under the identifier.
    NotFound,
    /// The session has no field of that name.
    UnknownField,
    /// The patch cannot be decoded, or does not fit the current buffer.
    MalformedPatch,
    /// The backing file could not be read.
    IOError,
}

/// An open document: its identifier, its file, the in-memory buffer and the
/// number of patches applied to it.
#[derive(Debug)]
pub struct DocumentSession {
    pub id: String,
    pub filepath: String,
    pub content: String,
    pub version: u64,
}

/// The open documents, at most one session per identifier.
pub struct DocumentRepo {
    pub sessions: Vec<DocumentSession>,
}

/// The name of the one field every session exposes: its buffer.
pub open spec fn content_field() -> Seq<char> {
    "content"@
}

/// The value of the little-endian 32-bit number at `at`.
pub open spec fn le_u32(b: Seq<u8>, at: int) -> int {
    b[at] as int + 256 * b[at + 1] as int + 65536 * b[at + 2] as int + 16777216 * b[at + 3] as int
}

/// A patch is eight bytes of header, the character offset and the number of
/// characters to delete (each little-endian 32-bit), followed by the text to
/// insert in UTF-8. Applying it replaces the deleted range by the text.
pub open spec fn apply_patch(content: Seq<char>, patch: Seq<u8>) -> Option<Seq<char>> {
    if patch.len() < 8 || !valid_utf8(patch.subrange(8, patch.len() as int)) {
        None
    } else {
        let off = le_u32(patch, 0);
        let del = le_u32(patch, 4);
        let ins = decode_utf8(patch.subrange(8, patch.len() as int));
        if off + del <= content.len() {
            Some(content.subrange(0, off) + ins + content.subrange(off + del, content.len() as int))
        } else {
            None
        }
    }
}

/// The buffer after applying `patches` one at a time, in order, or `None`
/// if one of them does not apply.
pub open spec fn replay(content: Seq<char>, patches: Seq<Seq<u8>>) -> Option<Seq<char>>
    decreases patches.len(),
{
    if patches.len() == 0 {
        Some(content)
    } else {
        match replay(content, patches.drop_last()) {
            Some(c) => apply_patch(c, patches.last()),
            None => None,
        }
    }
}

/// Patches submitted in several batches, each applied in order after the
/// ones before it, leave the buffer as applying all of them one at a time in
/// submission order does.
pub proof fn lemma_replay_in_batches(content: Seq<char>, first: Seq<Seq<u8>>, then: Seq<Seq<u8>>)
    ensures
        replay(content, first + then) == match replay(content, first) {
            Some(c) => replay(c, then),
            None => None,
        },
    decreases then.len(),
{
    if then.len() == 0 {
        assert(first + then == first);
    } else {
        assert((first + then).drop_last() == first + then.drop_last());
        assert((first + then).last() == then.last());
        lemma_replay_in_batches(content, first, then.drop_last());
    }
}

/// The version after one more patch; it stays put at the largest value.
pub open spec fn next_version(v: u64) -> u64 {
    if v < u64::MAX {
        (v + 1) as u64
    } else {
        v
    }
}

/// The position of the session named `id`, if one is open.
pub open spec fn session_index(s: Seq<DocumentSession>, id: Seq<char>) -> Option<int> {
    if exists|i: int| 0 <= i < s.len() && #[trigger] s[i].id@ == id {
        Some(choose|i: int| 0 <= i < s.len() && #[trigger] s[i].id@ == id)
    } else {
        None
    }
}

/// Relies on `std::str::from_utf8`: it succeeds exactly on valid UTF-8 and
/// then holds the decoded characters.
#[verifier::external_body]
fn utf8_text(b: &[u8]) -> (r: Option<String>)
    ensures
        r is Some <==> valid_utf8(b@),
        r matches Some(s) ==> s@ == decode_utf8(b@),
{
    match std::str::from_utf8(b) {
        Ok(s) => Some(s.to_string()),
        Err(_) => None,
    }
}

fn read_u32_le(b: &[u8], at: usize) -> (r: u32)
    requires
        at + 4 <= b@.len(),
    ensures
        r as int == le_u32(b@, at as int),
{
    b[at] as u32 + 256 * (b[at + 1] as u32) + 65536 * (b[at + 2] as u32) + 16777216 * (
    b[at + 3] as u32)
}

/// The buffer `content` after applying `patch`.
pub fn patched_text(content: &str, patch: &[u8]) -> (r: Option<String>)
    ensures
        match r {
            Some(s) => apply_patch(content@, patch@) == Some(s@),
            None => apply_patch(content@, patch@) is None,
        },
{
    if patch.len() < 8 {
        return None;
    }
    let off = read_u32_le(patch, 0) as usize;
    let del = read_u32_le(patch, 4) as usize;
    let rest = slice_subrange(patch, 8, patch.len());
    assert(rest@ == patch@.subrange(8, patch@.len() as int));
    let ins = match utf8_text(rest) {
        Some(s) => s,
        None => return None,
    };
    let n = content.unicode_len();
    if off > n || del > n - off {
        return None;
    }
    let prefix = content.substring_char(0, off);
    let suffix = content.substring_char(off + del, n);
    Some(String::from_str(prefix).concat(ins.as_str()).concat(suffix))
}

/// Encodes a patch that replaces `delete` characters at `offset` by `text`.
pub fn encode_patch(offset: u32, delete: u32, text: &str) -> (r: Vec<u8>)
    ensures
        r@.len() >= 8,
        le_u32(r@, 0) == offset,
        le_u32(r@, 4) == delete,
        r@.subrange(8, r@.len() as int) == encode_utf8(text@),
{
    let mut r: Vec<u8> = Vec::new();
    r.push((offset % 256) as u8);
    r.push((offset / 256 % 256) as u8);
    r.push((offset / 65536 % 256) as u8);
    r.push((offset / 16777216) as u8);
    r.push((delete % 256) as u8);
    r.push((delete / 256 % 256) as u8);
    r.push((delete / 65536 % 256) as u8);
    r.push((delete / 16777216) as u8);
    let bytes = text.as_bytes_vec();
    let mut i: usize = 0;
    while i < bytes.len()
        invariant
            i <= bytes@.len(),
            r@.len() == 8 + i,
            le_u32(r@, 0) == offset,
            le_u32(r@, 4) == delete,
            r@.subrange(8, r@.len() as int) == bytes@.subrange(0, i as int),
        decreases bytes.len() - i,
    {
        r.push(bytes[i]);
        assert(r@.subrange(8, r@.len() as int) == bytes@.subrange(0, i + 1));
        i = i + 1;
    }
    assert(bytes@.subrange(0, bytes@.len() as int) == bytes@);
    r
}

/// An encoded patch replaces the range it names by its text.
pub proof fn lemma_encoded_patch_applies(content: Seq<char>, offset: u32, delete: u32, text: Seq<char>, patch: Seq<u8>)
    requires
        patch.len() >= 8,
        le_u32(patch, 0) == offset,
        le_u32(patch, 4) == delete,
        patch.subrange(8, patch.len() as int) == encode_utf8(text),
        offset + delete <= content.len(),
    ensures
        apply_patch(content, patch) == Some(
            content.subrange(0, offset as int) + text + content.subrange(
                offset + delete,
                content.len() as int,
            ),
        ),
{
    vstd::utf8::encode_utf8_valid_utf8(text);
    vstd::utf8::encode_utf8_decode_utf8(text);
}

impl DocumentRepo {
    /// No two sessions share an identifier.
    pub open spec fn wf(&self) -> bool {
        forall|i: int, j: int|
            0 <= i < j < self.sessions@.len() ==> #[trigger] self.sessions@[i].id@
                != #[trigger] self.sessions@[j].id@
    }

    /// The session open under `id`, if any.
    pub open spec fn session(&self, id: Seq<char>) -> Option<DocumentSession> {
        match session_index(self.sessions@, id) {
            Some(i) => Some(self.sessions@[i]),
            None => None,
        }
    }

    /// The buffer of the session open under `id`, if any.
    pub open spec fn content_of(&self, id: Seq<char>) -> Option<Seq<char>> {
        match self.session(id) {
            Some(s) => Some(s.content@),
            None => None,
        }
    }

    proof fn lemma_index(&self, i: int)
        requires
            self.wf(),
            0 <= i < self.sessions@.len(),
        ensures
            session_index(self.sessions@, self.sessions@[i].id@) == Some(i),
    {
        let id = self.sessions@[i].id@;
        let k = choose|k: int| 0 <= k < self.sessions@.len() && #[trigger] self.sessions@[k].id@ == id;
        if k < i {
            assert(self.sessions@[k].id@ != self.sessions@[i].id@);
        } else if k > i {
            assert(self.sessions@[i].id@ != self.sessions@[k].id@);
        }
    }

    /// Replacing the session at `i` by one with the same identifier keeps
    /// every other identifier's session.
    proof fn lemma_replace(old_repo: &DocumentRepo, new_repo: &DocumentRepo, i: int)
        requires
            old_repo.wf(),
            0 <= i < old_repo.sessions@.len(),
            new_repo.sessions@.len() == old_repo.sessions@.len(),
            new_repo.sessions@[i].id@ == old_repo.sessions@[i].id@,
            forall|j: int|
                0 <= j < old_repo.sessions@.len() && j != i ==> new_repo.sessions@[j]
                    == old_repo.sessions@[j],
        ensures
            new_repo.wf(),
            new_repo.session(old_repo.sessions@[i].id@) == Some(new_repo.sessions@[i]),
            forall|id: Seq<char>|
                id != old_repo.sessions@[i].id@ ==> #[trigger] new_repo.session(id)
                    == old_repo.session(id),
    {
        assert forall|a: int, b: int|
            0 <= a < b < new_repo.sessions@.len() implies #[trigger] new_repo.sessions@[a].id@
            != #[trigger] new_repo.sessions@[b].id@ by {
            assert(old_repo.sessions@[a].id@ != old_repo.sessions@[b].id@);
        }
        new_repo.lemma_index(i);
        assert forall|id: Seq<char>|
            id != old_repo.sessions@[i].id@ implies #[trigger] new_repo.session(id)
            == old_repo.session(id) by {
            if exists|k: int| 0 <= k < old_repo.sessions@.len() && #[trigger] old_repo.sessions@[k].id@ == id {
                let k = choose|k: int| 0 <= k < old_repo.sessions@.len() && #[trigger] old_repo.sessions@[k].id@ == id;
                old_repo.lemma_index(k);
                assert(new_repo.sessions@[k].id@ == id);
                new_repo.lemma_index(k);
            } else {
                assert forall|k: int| 0 <= k < new_repo.sessions@.len() implies #[trigger] new_repo.sessions@[k].id@ != id by {
                    if k != i {
                        assert(old_repo.sessions@[k].id@ != id);
                    }
                }
            }
        }
    }

    pub fn new() -> (r: DocumentRepo)
        ensures
            r.wf(),
            forall|id: Seq<char>| #[trigger] r.session(id) is None,
    {
        DocumentRepo { sessions: Vec::new() }
    }

    fn find(&self, id: &str) -> (r: Option<usize>)
        requires
            self.wf(),
        ensures
            match r {
                Some(i) => i < self.sessions@.len() && session_index(self.sessions@, id@) == Some(
                    i as int,
                ) && self.sessions@[i as int].id@ == id@,
                None => session_index(self.sessions@, id@) is None,
            },
    {
        let mut i: usize = 0;
        while i < self.sessions.len()
            invariant
                self.wf(),
                i <= self.sessions@.len(),
                forall|j: int| 0 <= j < i ==> #[trigger] self.sessions@[j].id@ != id@,
            decreases self.sessions.len() - i,
        {
            if text_eq(self.sessions[i].id.as_str(), id) {
                proof {
                    self.lemma_index(i as int);
                }
                return Some(i);
            }
            i = i + 1;
        }
        None
    }

    /// Whether a session is open under `id`.
    pub fn has(&self, id: &str) -> (r: bool)
        requires
            self.wf(),
        ensures
            r == self.session(id@) is Some,
    {
        self.find(id).is_some()
    }

    /// Attaches the document `id`. An open session is returned as it stands;
    /// otherwise the file at `filepath` is read from `files` and a session is
    /// opened with its content at version 0. Returns the buffer's UTF-8 bytes.
    pub fn manage(&mut self, id: String, filepath: String, files: &Catalog) -> (r: Result<Vec<u8>, DocError>)
        requires
            old(self).wf(),
        ensures
            final(self).wf(),
            match old(self).session(id@) {
                Some(s) => {
                    &&& *final(self) == *old(self)
                    &&& (r matches Ok(b) && b@ == encode_utf8(s.content@))
                },
                None => match r {
                    Ok(b) => {
                        let s = final(self).sessions@.last();
                        &&& final(self).sessions@ == old(self).sessions@.push(s)
                        &&& s.id == id
                        &&& s.filepath == filepath
                        &&& s.version == 0
                        &&& exists|k: int| 0 <= k < files.documents@.len()
                            && #[trigger] files.documents@[k].filepath@ == filepath@
                            && files.documents@[k].content@ == s.content@
                        &&& b@ == encode_utf8(s.content@)
                        &&& final(self).session(id@) == Some(s)
                    },
                    Err(e) => {
                        &&& e == DocError::IOError
                        &&& *final(self) == *old(self)
                        &&& forall|k: int| 0 <= k < files.documents@.len()
                            ==> #[trigger] files.documents@[k].filepath@ != filepath@
                    },
                },
            },
            forall|other: Seq<char>| other != id@ ==> #[trigger] final(self).session(other) == old(self).session(other),
    {
        match self.find(id.as_str()) {
            Some(i) => {
                return Ok(self.sessions[i].content.as_str().as_bytes_vec());
            },
            None => {},
        }
        let content = match files.read_file(filepath.as_str()) {
            Ok(c) => c,
            Err(_) => return Err(DocError::IOError),
        };
        let snapshot = content.as_str().as_bytes_vec();
        let ghost before = self.sessions@;
        self.sessions.push(DocumentSession { id, filepath, content, version: 0 });
        proof {
            let n = before.len() as int;
            assert forall|a: int, b: int|
                0 <= a < b < self.sessions@.len() implies #[trigger] self.sessions@[a].id@
                != #[trigger] self.sessions@[b].id@ by {
                if b == n {
                    assert(before[a].id@ != self.sessions@[n].id@);
                } else {
                    assert(before[a].id@ != before[b].id@);
                }
            }
            self.lemma_index(n);
            assert forall|other: Seq<char>| other != self.sessions@[n].id@ implies #[trigger] self.session(other) == old(self).session(other) by {
                if exists|k: int| 0 <= k < before.len() && #[trigger] before[k].id@ == other {
                    let k = choose|k: int| 0 <= k < before.len() && #[trigger] before[k].id@ == other;
                    old(self).lemma_index(k);
                    self.lemma_index(k);
                } else {
                    assert forall|k: int| 0 <= k < self.sessions@.len() implies #[trigger] self.sessions@[k].id@ != other by {
                        if k < n {
                            assert(before[k].id@ != other);
                        }
                    }
                }
            }
        }
        Ok(snapshot)
    }

    /// Reads a named field of an open session; `"content"` is its buffer.
    pub fn get_string_of_doc(&self, id: &str, field_name: &str) -> (r: Result<String, DocError>)
        requires
            self.wf(),
        ensures
            match self.session(id@) {
                None => r == Err::<String, DocError>(DocError::NotFound),
                Some(s) => if field_name@ == content_field() {
                    r matches Ok(v) && v@ == s.content@
                } else {
                    r == Err::<String, DocError>(DocError::UnknownField)
                },
            },
    {
        match self.find(id) {
            None => Err(DocError::NotFound),
            Some(i) => if text_eq(field_name, "content") {
                Ok(self.sessions[i].content.clone())
            } else {
                Err(DocError::UnknownField)
            },
        }
    }

    /// Overwrites a named field of an open session, leaving its version as it is.
    pub fn set_string_of_doc(&mut self, id: &str, field_name: &str, value: &str) -> (r: Result<(), DocError>)
        requires
            old(self).wf(),
        ensures
            final(self).wf(),
            match old(self).session(id@) {
                None => r == Err::<(), DocError>(DocError::NotFound) && *final(self) == *old(self),
                Some(s) => if field_name@ == content_field() {
                    &&& r is Ok
                    &&& final(self).session(id@) matches Some(t)
                    &&& t.id == s.id && t.filepath == s.filepath && t.version == s.version
                    &&& t.content@ == value@
                } else {
                    r == Err::<(), DocError>(DocError::UnknownField) && *final(self) == *old(self)
                },
            },
            forall|other: Seq<char>| other != id@ ==> #[trigger] final(self).session(other) == old(self).session(other),
    {
        let i = match self.find(id) {
            None => return Err(DocError::NotFound),
            Some(i) => i,
        };
        if !text_eq(field_name, "content") {
            return Err(DocError::UnknownField);
        }
        self.sessions[i].content = String::from_str(value);
        proof {
            Self::lemma_replace(old(self), self, i as int);
        }
        Ok(())
    }

    /// Applies one patch to the buffer of an open session and advances its
    /// version. Fails with `NotFound` if no session is open under `id`, and
    /// with `MalformedPatch` if the patch does not decode or does not fit the
    /// buffer; on failure nothing changes.
    pub fn apply_change(&mut self, id: &str, patch: &[u8]) -> (r: Result<(), DocError>)
        requires
            old(self).wf(),
        ensures
            final(self).wf(),
            match old(self).session(id@) {
                None => r == Err::<(), DocError>(DocError::NotFound) && *final(self) == *old(self),
                Some(s) => match apply_patch(s.content@, patch@) {
                    None => r == Err::<(), DocError>(DocError::MalformedPatch) && *final(self)
                        == *old(self),
                    Some(c) => {
                        &&& r is Ok
                        &&& final(self).session(id@) matches Some(t)
                        &&& t.id == s.id && t.filepath == s.filepath
                        &&& t.version == next_version(s.version)
                        &&& t.content@ == c
                    },
                },
            },
            forall|other: Seq<char>| other != id@ ==> #[trigger] final(self).session(other) == old(self).session(other),
    {
        let i = match self.find(id) {
            None => return Err(DocError::NotFound),
            Some(i) => i,
        };
        let next = match patched_text(self.sessions[i].content.as_str(), patch) {
            None => return Err(DocError::MalformedPatch),
            Some(c) => c,
        };
        self.sessions[i].content = next;
        if self.sessions[i].version < u64::MAX {
            self.sessions[i].version = self.sessions[i].version + 1;
        }
        proof {
            Self::lemma_replace(old(self), self, i as int);
        }
        Ok(())
    }

    /// Applies `patches` to the session `id` one at a time, in order, and
    /// stops at the first that fails. The buffer then holds the sequential
    /// result of the patches applied so far; the error names the failing one.
    pub fn apply_changes(&mut self, id: &str, patches: &Vec<Vec<u8>>) -> (r: Result<(), (usize, DocError)>)
        requires
            old(self).wf(),
        ensures
            final(self).wf(),
            forall|other: Seq<char>| other != id@ ==> #[trigger] final(self).session(other) == old(self).session(other),
            match old(self).content_of(id@) {
                None => r == Err::<(), (usize, DocError)>((0, DocError::NotFound)) && *final(self) == *old(self),
                Some(c) => {
                    let ps = patches@.map_values(|p: Vec<u8>| p@);
                    match r {
                        Ok(()) => replay(c, ps) == final(self).content_of(id@),
                        Err((k, e)) => {
                            &&& k < ps.len()
                            &&& e == DocError::MalformedPatch
                            &&& replay(c, ps.subrange(0, k as int)) == final(self).content_of(id@)
                            &&& replay(c, ps.subrange(0, k + 1 as int)) is None
                        },
                    }
                },
            },
    {
        if !self.has(id) {
            return Err((0, DocError::NotFound));
        }
        let ghost c = old(self).content_of(id@).unwrap();
        let ghost ps = patches@.map_values(|p: Vec<u8>| p@);
        let mut k: usize = 0;
        while k < patches.len()
            invariant
                self.wf(),
                k <= patches@.len(),
                ps == patches@.map_values(|p: Vec<u8>| p@),
                old(self).content_of(id@) == Some(c),
                replay(c, ps.subrange(0, k as int)) == self.content_of(id@),
                self.content_of(id@) is Some,
                forall|other: Seq<char>| other != id@ ==> #[trigger] self.session(other) == old(self).session(other),
            decreases patches.len() - k,
        {
            assert(ps.subrange(0, k + 1 as int).drop_last() == ps.subrange(0, k as int));
            assert(ps.subrange(0, k + 1 as int).last() == patches@[k as int]@);
            match self.apply_change(id, patches[k].as_slice()) {
                Ok(()) => {},
                Err(e) => {
                    return Err((k, e));
                },
            }
            k = k + 1;
        }
        assert(ps.subrange(0, k as int) == ps);
        Ok(())
    }
}

} // verus!
