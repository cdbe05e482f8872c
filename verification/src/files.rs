//! The table of open files: which numbers are open, in which mode and for
//! which path. The table decides what may be done with a file number; the
//! reading and writing itself is the host's.

use std::collections::HashMap;
use vstd::prelude::*;
use vstd::string::*;
use crate::error::{Error, ErrorView};
use crate::text::{decimal, push_decimal};

verus! {

broadcast use vstd::std_specs::hash::group_hash_axioms;

/// File access modes.
#[derive(Clone, Copy, Debug, PartialEq, Eq, Structural)]
pub enum FileMode {
    Input,
    Output,
    Append,
    Random,
}

/// What the table knows of an open file.
#[derive(Debug)]
pub struct FileHandle {
    pub mode: FileMode,
    pub path: String,
}

/// A `FileHandle` with its path as a sequence of characters.
pub struct FileHandleView {
    pub mode: FileMode,
    pub path: Seq<char>,
}

impl View for FileHandle {
    type V = FileHandleView;

    open spec fn view(&self) -> FileHandleView {
        FileHandleView { mode: self.mode, path: self.path@ }
    }
}

/// The message for a number that is open already.
pub open spec fn already_open(number: i32) -> Seq<char> {
    "File #"@ + decimal(number as int) + " is already open"@
}

/// The message for a number that is not open.
pub open spec fn not_open(number: i32) -> Seq<char> {
    "File #"@ + decimal(number as int) + " is not open"@
}

/// The message for a file that is not open for writing.
pub open spec fn not_for_writing(number: i32) -> Seq<char> {
    "File #"@ + decimal(number as int) + " not open for writing"@
}

/// The message for a file that is not open for reading.
pub open spec fn not_for_reading(number: i32) -> Seq<char> {
    "File #"@ + decimal(number as int) + " not open for reading"@
}

/// Whether lines can be written to a file of this mode.
pub open spec fn writes(mode: FileMode) -> bool {
    mode == FileMode::Output || mode == FileMode::Append
}

/// Whether lines can be read from a file of this mode.
pub open spec fn reads(mode: FileMode) -> bool {
    mode == FileMode::Input
}

/// A result of the table, with the failure as a view.
pub open spec fn table_result<T>(r: Result<T, Error>) -> Result<T, ErrorView> {
    match r {
        Ok(v) => Ok(v),
        Err(e) => Err(e@),
    }
}

/// What a query on the file `number` gives: `answer` where the file is open,
/// else the failure that it is not.
pub open spec fn query<T>(files: Map<i32, FileHandleView>, number: i32, answer: T) -> Result<
    T,
    ErrorView,
> {
    if files.contains_key(number) {
        Ok(answer)
    } else {
        Err(ErrorView::RuntimeError(not_open(number)))
    }
}

/// Whether a line may be written to the file `number`.
pub open spec fn may_write(files: Map<i32, FileHandleView>, number: i32) -> Result<(), ErrorView> {
    if !files.contains_key(number) {
        Err(ErrorView::RuntimeError(not_open(number)))
    } else if writes(files[number].mode) {
        Ok(())
    } else {
        Err(ErrorView::RuntimeError(not_for_writing(number)))
    }
}

/// Whether a line may be read from the file `number`.
pub open spec fn may_read(files: Map<i32, FileHandleView>, number: i32) -> Result<(), ErrorView> {
    if !files.contains_key(number) {
        Err(ErrorView::RuntimeError(not_open(number)))
    } else if reads(files[number].mode) {
        Ok(())
    } else {
        Err(ErrorView::RuntimeError(not_for_reading(number)))
    }
}

fn failure(prefix: &str, number: i32, suffix: &str) -> (e: Error)
    ensures
        e@ == ErrorView::RuntimeError(prefix@ + decimal(number as int) + suffix@),
{
    let mut msg = String::from_str(prefix);
    push_decimal(&mut msg, number as i64);
    msg.append(suffix);
    Error::RuntimeError(msg)
}

/// File manager: the files that are open, by their numbers.
#[derive(Debug)]
pub struct FileManager {
    handles: HashMap<i32, FileHandle>,
}

impl View for FileManager {
    type V = Map<i32, FileHandleView>;

    closed spec fn view(&self) -> Map<i32, FileHandleView> {
        self.handles@.map_values(|h: FileHandle| h@)
    }
}

impl FileManager {
    /// A table without open files.
    pub fn new() -> (files: FileManager)
        ensures
            files@ == Map::<i32, FileHandleView>::empty(),
    {
        let files = FileManager { handles: HashMap::new() };
        assert(files@ =~= Map::<i32, FileHandleView>::empty());
        files
    }

    /// The number of open files.
    pub fn len(&self) -> (n: usize)
        ensures
            self@.dom().finite(),
            n == self@.dom().len(),
    {
        assert(self@.dom() =~= self.handles@.dom());
        self.handles.len()
    }

    /// Opens the number `file_num` for the file at `path`; a number that is
    /// open already is refused.
    pub fn open(&mut self, file_num: i32, path: &str, mode: FileMode) -> (r: Result<(), Error>)
        ensures
            old(self)@.contains_key(file_num) ==> table_result(r) == Err::<(), ErrorView>(
                ErrorView::RuntimeError(already_open(file_num)),
            ) && final(self)@ == old(self)@,
            !old(self)@.contains_key(file_num) ==> r is Ok && final(self)@ == old(self)@.insert(
                file_num,
                FileHandleView { mode, path: path@ },
            ),
    {
        if self.handles.contains_key(&file_num) {
            return Err(failure("File #", file_num, " is already open"));
        }
        let handle = FileHandle { mode, path: path.to_owned() };
        self.handles.insert(file_num, handle);
        assert(self@ =~= old(self)@.insert(file_num, FileHandleView { mode, path: path@ }));
        Ok(())
    }

    /// Settles a request to open the number `file_num` with what came of it
    /// at the host. Where the host opened the file, the number stays open.
    /// Where it could not, `failure` holds its message: the number is taken
    /// for closed again, and the failure is an input or output error with
    /// that message.
    pub fn settle_open(&mut self, file_num: i32, failure: Option<String>) -> (r: Result<(), Error>)
        ensures
            failure is None ==> r is Ok && final(self)@ == old(self)@,
            failure is Some ==> table_result(r) == Err::<(), ErrorView>(
                ErrorView::IoError(failure->Some_0@),
            ) && final(self)@ == old(self)@.remove(file_num),
    {
        match failure {
            None => Ok(()),
            Some(message) => {
                self.handles.remove(&file_num);
                assert(self@ =~= old(self)@.remove(file_num));
                Err(Error::IoError(message))
            },
        }
    }

    /// Closes the number `file_num`; a number that is not open is refused.
    pub fn close(&mut self, file_num: i32) -> (r: Result<(), Error>)
        ensures
            old(self)@.contains_key(file_num) ==> r is Ok && final(self)@ == old(self)@.remove(file_num),
            !old(self)@.contains_key(file_num) ==> table_result(r) == Err::<(), ErrorView>(
                ErrorView::RuntimeError(not_open(file_num)),
            ) && final(self)@ == old(self)@,
    {
        match self.handles.remove(&file_num) {
            Some(_) => {
                assert(self@ =~= old(self)@.remove(file_num));
                Ok(())
            },
            None => {
                assert(self@ =~= old(self)@);
                Err(failure("File #", file_num, " is not open"))
            },
        }
    }

    /// Closes every file.
    pub fn close_all(&mut self) -> (r: Result<(), Error>)
        ensures
            r is Ok,
            final(self)@ == Map::<i32, FileHandleView>::empty(),
    {
        self.handles.clear();
        assert(self@ =~= Map::<i32, FileHandleView>::empty());
        Ok(())
    }

    /// Whether a line may be written to the file `file_num`: it has to be
    /// open for output or to append. The host writes the line.
    pub fn write_line(&self, file_num: i32, data: &str) -> (r: Result<(), Error>)
        ensures
            table_result(r) == may_write(self@, file_num),
    {
        match self.handles.get(&file_num) {
            Some(handle) => {
                if handle.mode == FileMode::Output || handle.mode == FileMode::Append {
                    Ok(())
                } else {
                    Err(failure("File #", file_num, " not open for writing"))
                }
            },
            None => Err(failure("File #", file_num, " is not open")),
        }
    }

    /// Whether a line may be read from the file `file_num`: it has to be
    /// open for input. The host reads the line.
    pub fn read_line(&self, file_num: i32) -> (r: Result<(), Error>)
        ensures
            table_result(r) == may_read(self@, file_num),
    {
        match self.handles.get(&file_num) {
            Some(handle) => {
                if handle.mode == FileMode::Input {
                    Ok(())
                } else {
                    Err(failure("File #", file_num, " not open for reading"))
                }
            },
            None => Err(failure("File #", file_num, " is not open")),
        }
    }

    /// Whether the file `file_num` is at its end: never, for an open file.
    pub fn eof(&self, file_num: i32) -> (r: Result<bool, Error>)
        ensures
            table_result(r) == query(self@, file_num, false),
    {
        if self.handles.contains_key(&file_num) {
            Ok(false)
        } else {
            Err(failure("File #", file_num, " is not open"))
        }
    }

    /// The position in the file `file_num`: always 0, for an open file.
    pub fn loc(&self, file_num: i32) -> (r: Result<i32, Error>)
        ensures
            table_result(r) == query(self@, file_num, 0i32),
    {
        if self.handles.contains_key(&file_num) {
            Ok(0)
        } else {
            Err(failure("File #", file_num, " is not open"))
        }
    }

    /// The length of the file `file_num`: always 0, for an open file.
    pub fn lof(&self, file_num: i32) -> (r: Result<i32, Error>)
        ensures
            table_result(r) == query(self@, file_num, 0i32),
    {
        if self.handles.contains_key(&file_num) {
            Ok(0)
        } else {
            Err(failure("File #", file_num, " is not open"))
        }
    }

    /// The mode in which the file `file_num` is open.
    pub fn mode(&self, file_num: i32) -> (r: Option<FileMode>)
        ensures
            match r {
                Some(m) => self@.contains_key(file_num) && self@[file_num].mode == m,
                None => !self@.contains_key(file_num),
            },
    {
        match self.handles.get(&file_num) {
            Some(handle) => Some(handle.mode),
            None => None,
        }
    }
}

impl Default for FileManager {
    /// A table without open files.
    fn default() -> (files: FileManager)
        ensures
            files@ == Map::<i32, FileHandleView>::empty(),
    {
        FileManager::new()
    }
}

} // verus!
