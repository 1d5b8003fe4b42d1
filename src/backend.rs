use vstd::prelude::*;

use crate::buffer::{BufferError, Buffers, ContentChange, TextPosition, TextRange, is_supported_update};
use crate::pool::{parent_dir_of, Acquire, ConfigError, ProcessProvider};

verus! {

/// A replacement of the text in a range of a document.
#[derive(Clone, Debug)]
pub struct TextEdit {
    pub range: TextRange,
    pub new_text: String,
}

/// A range that covers every document: from the first position to the
/// largest one that can be written.
pub open spec fn whole_document() -> TextRange {
    TextRange {
        start: TextPosition { line: 0, character: 0 },
        end: TextPosition { line: u32::MAX, character: u32::MAX },
    }
}

/// The edits that apply a format result: none when the text is unchanged,
/// else one that replaces the whole document with the new text.
pub fn edits_for(formatted: Option<String>) -> (r: Option<Vec<TextEdit>>)
    ensures
        formatted is None <==> r is None,
        formatted matches Some(t) ==> r matches Some(v) && v@.len() == 1 && v@[0].range
            == whole_document() && v@[0].new_text@ == t@,
{
    match formatted {
        None => None,
        Some(text) => {
            let range = TextRange {
                start: TextPosition { line: 0, character: 0 },
                end: TextPosition { line: u32::MAX, character: u32::MAX },
            };
            let mut edits: Vec<TextEdit> = Vec::new();
            edits.push(TextEdit { range, new_text: text });
            Some(edits)
        },
    }
}

#[derive(Clone, Copy, Debug, PartialEq, Eq)]
pub enum SaveError {
    /// No text is known for the document.
    UnknownBuffer,
    /// The document's process could not be resolved.
    Config(ConfigError),
}

impl SaveError {
    pub fn message(&self) -> (r: String)
        ensures
            *self == SaveError::UnknownBuffer ==> r@ == "Could not find buffer"@,
            *self == SaveError::Config(ConfigError::IsDirectory) ==> r@
                == "argument file_name is not a file"@,
            *self == SaveError::Config(ConfigError::NoDirectory) ==> r@
                == "Could not find directory"@,
    {
        match self {
            SaveError::UnknownBuffer => "Could not find buffer".to_owned(),
            SaveError::Config(e) => e.message(),
        }
    }
}

/// The editor-facing state: document texts and the formatter processes.
#[derive(Debug)]
pub struct Backend<P> {
    process_provider: ProcessProvider<P>,
    buffers: Buffers,
}

impl<P> Backend<P> {
    pub closed spec fn buffers(&self) -> Map<Seq<char>, Seq<char>> {
        self.buffers@
    }

    pub closed spec fn pool(&self) -> ProcessProvider<P> {
        self.process_provider
    }

    pub closed spec fn wf(&self) -> bool {
        self.buffers.wf() && self.process_provider.wf()
    }

    pub fn new() -> (r: Self)
        ensures
            r.wf(),
            r.buffers() == Map::<Seq<char>, Seq<char>>::empty(),
            r.pool().processes().len() == 0,
    {
        Backend { process_provider: ProcessProvider::new(), buffers: Buffers::new() }
    }

    /// A document was opened: its text is stored, and the process of its
    /// directory is resolved so that it can be started before the first save.
    pub fn did_open(&mut self, file_name: String, text: String, is_dir: bool) -> (r: Result<
        Acquire,
        ConfigError,
    >)
        requires
            old(self).wf(),
        ensures
            final(self).wf(),
            final(self).buffers() == old(self).buffers().insert(file_name@, text@),
            final(self).pool() == old(self).pool(),
            is_dir ==> r == Err::<Acquire, _>(ConfigError::IsDirectory),
            !is_dir && parent_dir_of(file_name@) is None ==> r == Err::<Acquire, _>(
                ConfigError::NoDirectory,
            ),
            !is_dir && parent_dir_of(file_name@) is Some ==> match r {
                Ok(Acquire::Existing(i)) => old(self).pool().handle_for(file_name@) == Some(
                    i as int,
                ),
                Ok(Acquire::Spawn(d)) => parent_dir_of(file_name@) == Some(d@) && old(
                    self,
                ).pool().handle_for(file_name@) is None,
                Err(_) => false,
            },
    {
        let r = self.process_provider.get_process(file_name.as_str(), is_dir);
        self.buffers.create_buffer(file_name, text);
        r
    }

    /// A document changed: only a single whole-document replacement is
    /// accepted.
    pub fn did_change(&mut self, file_name: &str, changes: &[ContentChange]) -> (r: Result<
        (),
        BufferError,
    >)
        requires
            old(self).wf(),
        ensures
            final(self).wf(),
            final(self).pool() == old(self).pool(),
            r is Ok <==> is_supported_update(changes@),
            r is Ok ==> final(self).buffers() == old(self).buffers().insert(
                file_name@,
                changes@[0].text@,
            ),
            r is Err ==> final(self).buffers() == old(self).buffers(),
    {
        self.buffers.update_buffer(file_name, changes)
    }

    /// A document is about to be saved: its current text and the process that
    /// formats it.
    pub fn will_save(&self, file_name: &str, is_dir: bool) -> (r: Result<(String, Acquire), SaveError>)
        requires
            self.wf(),
        ensures
            !self.buffers().contains_key(file_name@) ==> r == Err::<(String, Acquire), _>(
                SaveError::UnknownBuffer,
            ),
            self.buffers().contains_key(file_name@) && is_dir ==> r == Err::<
                (String, Acquire),
                _,
            >(SaveError::Config(ConfigError::IsDirectory)),
            self.buffers().contains_key(file_name@) && !is_dir && parent_dir_of(file_name@) is None
                ==> r == Err::<(String, Acquire), _>(SaveError::Config(ConfigError::NoDirectory)),
            self.buffers().contains_key(file_name@) && !is_dir && parent_dir_of(file_name@) is Some
                ==> match r {
                Ok((text, Acquire::Existing(i))) => text@ == self.buffers()[file_name@]
                    && self.pool().handle_for(file_name@) == Some(i as int),
                Ok((text, Acquire::Spawn(d))) => text@ == self.buffers()[file_name@]
                    && parent_dir_of(file_name@) == Some(d@) && self.pool().handle_for(
                    file_name@,
                ) is None,
                Err(_) => false,
            },
    {
        let text = match self.buffers.get_buffer(file_name) {
            Some(t) => t.to_owned(),
            None => return Err(SaveError::UnknownBuffer),
        };
        match self.process_provider.get_process(file_name, is_dir) {
            Ok(a) => Ok((text, a)),
            Err(e) => Err(SaveError::Config(e)),
        }
    }

    /// Registers the process spawned for a directory that had none.
    pub fn register_process(&mut self, dir: String, process: P) -> (r: usize)
        requires
            old(self).wf(),
            old(self).pool().slot_of(dir@) is None,
        ensures
            final(self).wf(),
            final(self).buffers() == old(self).buffers(),
            r == old(self).pool().processes().len(),
            final(self).pool().directories() == old(self).pool().directories().push(dir@),
            final(self).pool().processes() == old(self).pool().processes().push(process),
            final(self).pool().slot_of(dir@) == Some(r as int),
    {
        self.process_provider.register(dir, process)
    }

    /// The process registered under a handle.
    pub fn process(&self, handle: usize) -> (r: &P)
        requires
            self.wf(),
            handle < self.pool().processes().len(),
        ensures
            *r == self.pool().processes()[handle as int],
    {
        self.process_provider.process(handle)
    }

    /// The current text of a document.
    pub fn buffer(&self, file_name: &str) -> (r: Option<&str>)
        requires
            self.wf(),
        ensures
            r is Some <==> self.buffers().contains_key(file_name@),
            r matches Some(s) ==> s@ == self.buffers()[file_name@],
    {
        self.buffers.get_buffer(file_name)
    }
}

} // verus!
