use vstd::prelude::*;
use vstd::string::StringSliceAdditionalSpecFns;
use vstd::utf8::{decode_utf8, encode_utf8, valid_utf8};

use crate::config::Config;
use crate::crypto::{opened, Crypto, MAX_PLAINTEXT_LEN};
use crate::error::{NoterError, Result};
use crate::index::{answering, in_listing_order, occurs_in, order_by_recency, search_records, views, NoteRecord};
use crate::naming::{
    blank, export_filename, export_filename_text, is_blank, note_filename, note_filename_text,
    note_header, note_header_text, temp_filename, temp_filename_text, Timestamp,
};

verus! {

/// One step against the blob store or the index, to be carried out in order.
#[derive(Debug, PartialEq, Eq)]
pub enum Effect {
    /// Write `contents` to the file `name` of the notes directory, replacing it.
    WriteFile { name: String, contents: String },
    /// Add an index row; the index assigns the id.
    InsertRow { title: String, filename: String },
    /// Remove the file `name` of the notes directory if it is there.
    RemoveFileIfPresent { name: String },
    /// Remove the file `name` of the notes directory.
    RemoveFile { name: String },
    /// Remove the index row `id`.
    DeleteRow { id: i64 },
}

/// What an `Effect` holds, as plain values.
pub enum EffectView {
    WriteFile { name: Seq<char>, contents: Seq<char> },
    InsertRow { title: Seq<char>, filename: Seq<char> },
    RemoveFileIfPresent { name: Seq<char> },
    RemoveFile { name: Seq<char> },
    DeleteRow { id: i64 },
}

impl View for Effect {
    type V = EffectView;

    open spec fn view(&self) -> EffectView {
        match self {
            Effect::WriteFile { name, contents } => EffectView::WriteFile { name: name@, contents: contents@ },
            Effect::InsertRow { title, filename } => EffectView::InsertRow { title: title@, filename: filename@ },
            Effect::RemoveFileIfPresent { name } => EffectView::RemoveFileIfPresent { name: name@ },
            Effect::RemoveFile { name } => EffectView::RemoveFile { name: name@ },
            Effect::DeleteRow { id } => EffectView::DeleteRow { id: *id },
        }
    }
}

pub open spec fn effect_views(s: Seq<Effect>) -> Seq<EffectView> {
    s.map_values(|e: Effect| e@)
}

/// The text that a blob reads as under `key`: `None` when it does not open
/// or its plaintext is not UTF-8.
pub open spec fn read_text(key: Seq<u8>, blob: Seq<char>) -> Option<Seq<char>> {
    match opened(key, blob) {
        Some(b) => if valid_utf8(b) {
            Some(decode_utf8(b))
        } else {
            None
        },
        None => None,
    }
}

/// Number of `true` entries.
pub open spec fn count_true(s: Seq<bool>) -> nat
    decreases s.len(),
{
    if s.len() == 0 {
        0
    } else {
        count_true(s.drop_last()) + if s.last() { 1nat } else { 0nat }
    }
}

/// Relies on `String::from_utf8`: the text when the bytes are UTF-8.
#[verifier::external_body]
fn utf8_text(b: Vec<u8>) -> (r: Option<String>)
    ensures
        match r {
            Some(s) => valid_utf8(b@) && s@ == decode_utf8(b@),
            None => !valid_utf8(b@),
        },
{
    String::from_utf8(b).ok()
}

/// An edit under way: the editor to run and the scratch file that it works on.
pub struct EditSession {
    pub editor: String,
    /// Name of the blob that the edit replaces.
    pub filename: String,
    /// Name of the scratch file, in the notes directory.
    pub temp_name: String,
    /// The note's current text, to be written to the scratch file.
    pub plaintext: String,
}

/// Where one note is exported.
pub struct ExportTarget {
    pub id: i64,
    pub title: String,
    /// File name inside the export directory.
    pub file_name: String,
}

/// The decisions of the note operations.
///
/// It keeps the blob store and the index consistent by the order of the effects it
/// hands out: a blob is written before its row is inserted, and removed before its
/// row is deleted, so an interruption leaves at worst an orphan file, never a row
/// without its file.
pub struct NotesManager {
    config: Config,
    crypto: Crypto,
}

impl NotesManager {
    pub closed spec fn wf(&self) -> bool {
        self.crypto.wf()
    }

    /// The encryption key in use.
    pub closed spec fn key(&self) -> Seq<u8> {
        self.crypto.key()
    }

    /// The extension of note file names.
    pub closed spec fn extension(&self) -> Seq<char> {
        self.config.default_extension@
    }

    pub closed spec fn configured_editor(&self) -> Option<Seq<char>> {
        match self.config.editor {
            Some(e) => Some(e@),
            None => None,
        }
    }

    pub closed spec fn export_dir(&self) -> Seq<char> {
        self.config.export_dir@
    }

    pub fn new(config: Config) -> (r: Self)
        ensures
            r.wf(),
            r.key() == crate::crypto::sha256_of(encode_utf8(config.encryption_key@)),
            r.extension() == config.default_extension@,
            r.export_dir() == config.export_dir@,
            r.configured_editor() == (match config.editor {
                Some(e) => Some(e@),
                None => None::<Seq<char>>,
            }),
    {
        let crypto = Crypto::new(config.encryption_key.as_str());
        NotesManager { config, crypto }
    }

    /// Plans the creation of a note titled `title` at time `now`: the encrypted blob
    /// is written first, then the index row is inserted.
    ///
    /// Fails with `InvalidTitle` when the title is blank.
    pub fn create_note(&self, title: &str, now: &Timestamp) -> (r: Result<Vec<Effect>>)
        requires
            self.wf(),
            now.wf(),
        ensures
            blank(title@) ==> r matches Err(NoterError::InvalidTitle(_)),
            !blank(title@) && encode_utf8(note_header_text(title@, *now)).len() <= MAX_PLAINTEXT_LEN
                ==> r is Ok,
            r matches Err(e) ==> e is InvalidTitle || e is Encryption,
            r matches Ok(effs) ==> ({
                let f = note_filename_text(*now, title@, self.extension());
                &&& effs@.len() == 2
                &&& effs@[0]@ matches EffectView::WriteFile { name, contents }
                    && name == f
                    && opened(self.key(), contents) == Some(encode_utf8(note_header_text(title@, *now)))
                &&& effs@[1]@ == EffectView::InsertRow { title: title@, filename: f }
            }),
    {
        if is_blank(title) {
            return Err(NoterError::InvalidTitle("Title cannot be empty".to_string()));
        }
        let filename = note_filename(now, title, self.config.default_extension.as_str());
        let content = note_header(title, now);
        let blob = self.crypto.encrypt(content.as_str().as_bytes())?;
        let mut effs: Vec<Effect> = Vec::new();
        effs.push(Effect::WriteFile { name: filename.clone(), contents: blob });
        effs.push(Effect::InsertRow { title: title.to_string(), filename });
        Ok(effs)
    }

    /// The text of a note, from its index row and the content of its blob file.
    ///
    /// Fails with `NoteNotFound` when there is no row, with `Io` when the blob file is
    /// missing, with `Encryption` when the blob does not open, and with `InvalidInput`
    /// when its plaintext is not UTF-8.
    pub fn read_note(&self, id: i64, record: Option<&NoteRecord>, blob: Option<&str>) -> (r: Result<String>)
        requires
            self.wf(),
        ensures
            record is None ==> r == Err::<String, NoterError>(NoterError::NoteNotFound(id)),
            record is Some && blob is None ==> r matches Err(NoterError::Io(_)),
            blob matches Some(b) ==> (record is Some ==> match r {
                Ok(s) => read_text(self.key(), b@) == Some(s@),
                Err(e) => read_text(self.key(), b@) is None && (e is Encryption || e is InvalidInput),
            }),
    {
        if record.is_none() {
            return Err(NoterError::NoteNotFound(id));
        }
        match blob {
            None => Err(NoterError::Io("note file is missing".to_string())),
            Some(b) => self.open_blob(b),
        }
    }

    /// The text that a blob reads as.
    pub fn open_blob(&self, blob: &str) -> (r: Result<String>)
        requires
            self.wf(),
        ensures
            match r {
                Ok(s) => read_text(self.key(), blob@) == Some(s@),
                Err(e) => read_text(self.key(), blob@) is None && (e is Encryption || e is InvalidInput),
            },
    {
        let bytes = self.crypto.decrypt(blob)?;
        match utf8_text(bytes) {
            Some(s) => Ok(s),
            None => Err(NoterError::InvalidInput("note is not valid UTF-8".to_string())),
        }
    }

    /// The index rows `records` as they are listed: most recently created first,
    /// ties by descending id.
    pub fn list_notes(&self, records: &Vec<NoteRecord>) -> (r: Vec<NoteRecord>)
        ensures
            in_listing_order(views(r@)),
            views(r@).to_multiset() == views(records@).to_multiset(),
    {
        order_by_recency(records)
    }

    /// The records among `records` whose title or file name contains `query`.
    pub fn search_notes(&self, records: &Vec<NoteRecord>, query: &str) -> (r: Vec<NoteRecord>)
        ensures
            views(r@) == answering(views(records@), query@),
    {
        search_records(records, query)
    }

    /// Plans the deletion of note `id`, given its index row if there is one.
    ///
    /// Without a row it answers `false` and changes nothing. With one it answers `true`:
    /// the blob file goes first, if it is there, then the row.
    pub fn delete_note(&self, id: i64, record: Option<&NoteRecord>) -> (r: (bool, Vec<Effect>))
        ensures
            r.0 == record is Some,
            record is None ==> r.1@.len() == 0,
            record matches Some(rec) ==> effect_views(r.1@) == seq![
                EffectView::RemoveFileIfPresent { name: rec.filename@ },
                EffectView::DeleteRow { id },
            ],
    {
        match record {
            None => (false, Vec::new()),
            Some(rec) => {
                let mut effs: Vec<Effect> = Vec::new();
                effs.push(Effect::RemoveFileIfPresent { name: rec.filename.clone() });
                effs.push(Effect::DeleteRow { id });
                assert(effect_views(effs@) =~= seq![
                    EffectView::RemoveFileIfPresent { name: rec.filename@ },
                    EffectView::DeleteRow { id },
                ]);
                (true, effs)
            },
        }
    }

    /// The editor to run: the configured one, else `env_editor`, else `EditorNotFound`.
    pub fn choose_editor(&self, env_editor: Option<String>) -> (r: Result<String>)
        ensures
            match self.configured_editor() {
                Some(e) => r matches Ok(s) && s@ == e,
                None => match env_editor {
                    Some(e) => r matches Ok(s) && s@ == e@,
                    None => r == Err::<String, NoterError>(NoterError::EditorNotFound),
                },
            },
    {
        match &self.config.editor {
            Some(e) => Ok(e.clone()),
            None => match env_editor {
                Some(e) => Ok(e),
                None => Err(NoterError::EditorNotFound),
            },
        }
    }

    /// Opens an edit of note `id`: its row, its blob's content and the editor found
    /// in the environment, if any.
    ///
    /// Fails as `read_note` does, and with `EditorNotFound` when no editor is
    /// configured and the environment names none; nothing has been touched then.
    pub fn edit_note(
        &self,
        id: i64,
        record: Option<&NoteRecord>,
        blob: Option<&str>,
        env_editor: Option<String>,
    ) -> (r: Result<EditSession>)
        requires
            self.wf(),
        ensures
            record is None ==> r == Err::<EditSession, NoterError>(NoterError::NoteNotFound(id)),
            record is Some && blob is None ==> r matches Err(NoterError::Io(_)),
            record matches Some(rec) ==> (blob matches Some(b) ==> match r {
                Ok(s) => read_text(self.key(), b@) == Some(s.plaintext@)
                    && s.filename@ == rec.filename@
                    && s.temp_name@ == temp_filename_text(rec.filename@)
                    && (self.configured_editor() is Some || env_editor is Some),
                Err(e) => read_text(self.key(), b@) is None || (e is EditorNotFound
                    && self.configured_editor() is None && env_editor is None),
            }),
            blob matches Some(b) ==> (record is Some && read_text(self.key(), b@) is Some
                && (self.configured_editor() is Some || env_editor is Some) ==> r is Ok),
    {
        let text = self.read_note(id, record, blob)?;
        let rec = match record {
            Some(rec) => rec,
            None => {
                return Err(NoterError::NoteNotFound(id));
            },
        };
        let editor = self.choose_editor(env_editor)?;
        Ok(EditSession {
            editor,
            filename: rec.filename.clone(),
            temp_name: temp_filename(rec.filename.as_str()),
            plaintext: text,
        })
    }

    /// Ends an edit. `edited` is what the scratch file holds once the editor exited
    /// successfully, `None` when the editor failed to start or exited with failure.
    ///
    /// On failure only the scratch file is removed and the blob is left as it was.
    /// On success the blob is overwritten with the edited content, then the scratch
    /// file is removed.
    pub fn finish_edit(&self, session: &EditSession, edited: Option<&[u8]>) -> (r: (Vec<Effect>, Result<()>))
        requires
            self.wf(),
        ensures
            match edited {
                None => r.1 matches Err(NoterError::EditorError(_))
                    && effect_views(r.0@) == seq![EffectView::RemoveFile { name: session.temp_name@ }],
                Some(b) => if b@.len() <= MAX_PLAINTEXT_LEN {
                    r.1 is Ok && r.0@.len() == 2
                        && (r.0@[0]@ matches EffectView::WriteFile { name, contents }
                            && name == session.filename@ && opened(self.key(), contents) == Some(b@))
                        && r.0@[1]@ == EffectView::RemoveFile { name: session.temp_name@ }
                } else {
                    r.1 matches Err(NoterError::Encryption(_))
                        && effect_views(r.0@) == seq![EffectView::RemoveFile { name: session.temp_name@ }]
                },
            },
    {
        let mut effs: Vec<Effect> = Vec::new();
        match edited {
            None => {
                effs.push(Effect::RemoveFile { name: session.temp_name.clone() });
                assert(effect_views(effs@) =~= seq![EffectView::RemoveFile { name: session.temp_name@ }]);
                (effs, Err(NoterError::EditorError("Editor exited with non-zero status".to_string())))
            },
            Some(b) => match self.crypto.encrypt(b) {
                Ok(blob) => {
                    effs.push(Effect::WriteFile { name: session.filename.clone(), contents: blob });
                    effs.push(Effect::RemoveFile { name: session.temp_name.clone() });
                    (effs, Ok(()))
                },
                Err(e) => {
                    effs.push(Effect::RemoveFile { name: session.temp_name.clone() });
                    assert(effect_views(effs@) =~= seq![EffectView::RemoveFile { name: session.temp_name@ }]);
                    (effs, Err(e))
                },
            },
        }
    }

    /// The directory to export to: `explicit` when given, else the configured one.
    pub fn export_target_dir(&self, explicit: Option<&str>) -> (r: String)
        ensures
            match explicit {
                Some(d) => r@ == d@,
                None => r@ == self.export_dir(),
            },
    {
        match explicit {
            Some(d) => d.to_string(),
            None => self.config.export_dir.clone(),
        }
    }

    /// Where each of `records` is exported, in order: its sanitized title with the
    /// note extension. No records, no targets.
    pub fn export_notes(&self, records: &Vec<NoteRecord>) -> (r: Vec<ExportTarget>)
        ensures
            r@.len() == records@.len(),
            forall|i: int| 0 <= i < r@.len() ==> {
                &&& (#[trigger] r@[i]).id == records@[i].id
                &&& r@[i].title@ == records@[i].title@
                &&& r@[i].file_name@ == export_filename_text(records@[i].title@, self.extension())
            },
    {
        let mut out: Vec<ExportTarget> = Vec::new();
        let mut i: usize = 0;
        while i < records.len()
            invariant
                i <= records@.len(),
                out@.len() == i,
                forall|k: int| 0 <= k < i ==> {
                    &&& (#[trigger] out@[k]).id == records@[k].id
                    &&& out@[k].title@ == records@[k].title@
                    &&& out@[k].file_name@ == export_filename_text(records@[k].title@, self.extension())
                },
            decreases records@.len() - i,
        {
            let rec = &records[i];
            let file_name = export_filename(rec.title.as_str(), self.config.default_extension.as_str());
            out.push(ExportTarget { id: rec.id, title: rec.title.clone(), file_name });
            i = i + 1;
        }
        out
    }
}

/// The outcome of a batch export: how many notes were exported, of how many.
pub fn tally(outcomes: &Vec<bool>) -> (r: (usize, usize))
    ensures
        r.0 == count_true(outcomes@),
        r.1 == outcomes@.len(),
{
    let mut n: usize = 0;
    let mut i: usize = 0;
    while i < outcomes.len()
        invariant
            i <= outcomes@.len(),
            n == count_true(outcomes@.take(i as int)),
            n <= i,
        decreases outcomes@.len() - i,
    {
        assert(outcomes@.take(i + 1).drop_last() =~= outcomes@.take(i as int));
        if outcomes[i] {
            n = n + 1;
        }
        i = i + 1;
    }
    assert(outcomes@.take(i as int) =~= outcomes@);
    (n, i)
}

/// A blob that opens to the UTF-8 bytes of a text reads back as that very text:
/// a note read right after its creation shows the content it was created with.
pub proof fn lemma_created_note_reads_back(key: Seq<u8>, blob: Seq<char>, content: Seq<char>)
    requires
        opened(key, blob) == Some(encode_utf8(content)),
    ensures
        read_text(key, blob) == Some(content),
{
    vstd::utf8::encode_utf8_valid_utf8(content);
    vstd::utf8::encode_utf8_decode_utf8(content);
}

proof fn lemma_count_true_all(s: Seq<bool>)
    requires
        forall|i: int| 0 <= i < s.len() ==> s[i],
    ensures
        count_true(s) == s.len(),
    decreases s.len(),
{
    if s.len() > 0 {
        lemma_count_true_all(s.drop_last());
    }
}

/// A batch export in which every note but one was written counts one less than
/// the number of notes; one over no notes counts nothing of nothing.
pub proof fn lemma_export_tally(s: Seq<bool>, failed: int)
    requires
        0 <= failed < s.len(),
        !s[failed],
        forall|i: int| 0 <= i < s.len() && i != failed ==> s[i],
    ensures
        count_true(s) == s.len() - 1,
        count_true(Seq::<bool>::empty()) == 0,
    decreases s.len(),
{
    if failed == s.len() - 1 {
        lemma_count_true_all(s.drop_last());
    } else {
        lemma_export_tally(s.drop_last(), failed);
    }
}

/// The content that a new note is created with holds its title, character for character.
pub proof fn lemma_header_holds_title(title: Seq<char>, t: Timestamp)
    ensures
        occurs_in(title, note_header_text(title, t)),
{
    let h = note_header_text(title, t);
    let i = "---\ntitle: "@.len() as int;
    assert(h.subrange(i, i + title.len()) =~= title);
}

} // verus!
