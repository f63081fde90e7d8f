//! A sink that writes files, one for each checkpoint.

use vstd::prelude::*;
use vstd::string::*;

use crate::kafka::laws::law_decimals_are_read_back;
use crate::util::id_map::views;
use crate::util::text::{append_decimal, decimal};

verus! {

/// How rows are written.
#[derive(Debug, Clone, Copy, PartialEq, Eq, Structural)]
pub enum SinkEncode {
    Parquet,
    Other,
}

/// What a row of a chunk does.
#[derive(Debug, Clone, Copy, PartialEq, Eq, Structural)]
pub enum Op {
    Insert,
    Delete,
    UpdateDelete,
    UpdateInsert,
}

/// Why a chunk cannot be written.
#[derive(Debug, Clone, Copy, PartialEq, Eq, Structural)]
pub enum FileSinkError {
    /// No epoch has begun.
    EpochNotInitialized,
    /// No file is open.
    WriterNotCreated,
}

impl FileSinkError {
    /// The words of the error.
    pub open spec fn words(self) -> Seq<char> {
        match self {
            FileSinkError::EpochNotInitialized =>
                "epoch has not been initialize, call `begin_epoch`"@,
            FileSinkError::WriterNotCreated => "Sink writer is not created."@,
        }
    }

    pub fn message(&self) -> (r: String)
        ensures
            r@ == self.words(),
    {
        match self {
            FileSinkError::EpochNotInitialized => String::from_str(
                "epoch has not been initialize, call `begin_epoch`",
            ),
            FileSinkError::WriterNotCreated => String::from_str("Sink writer is not created."),
        }
    }
}

/// Which file is written. The file itself is held by whoever writes it.
#[derive(Debug, PartialEq, Eq)]
pub struct OpenDalSinkWriter {
    /// Whether a file is open.
    pub sink_writer: bool,
    pub is_append_only: bool,
    pub write_path: String,
    pub epoch: Option<u64>,
    pub executor_id: u64,
    pub encode_type: SinkEncode,
}

/// The mathematical model of [`OpenDalSinkWriter`].
#[verifier::ext_equal]
pub struct OpenDalSinkWriterModel {
    pub sink_writer: bool,
    pub is_append_only: bool,
    pub write_path: Seq<char>,
    pub epoch: Option<u64>,
    pub executor_id: u64,
    pub encode_type: SinkEncode,
}

impl View for OpenDalSinkWriter {
    type V = OpenDalSinkWriterModel;

    open spec fn view(&self) -> OpenDalSinkWriterModel {
        OpenDalSinkWriterModel {
            sink_writer: self.sink_writer,
            is_append_only: self.is_append_only,
            write_path: self.write_path@,
            epoch: self.epoch,
            executor_id: self.executor_id,
            encode_type: self.encode_type,
        }
    }
}

impl OpenDalSinkWriterModel {
    /// The name of the file of an epoch.
    pub open spec fn object_name(self, epoch: u64) -> Seq<char> {
        self.write_path + "/"@ + decimal(epoch as nat) + "_"@ + decimal(self.executor_id as nat)
            + ".parquet"@
    }
}

impl OpenDalSinkWriter {
    pub fn new(
        write_path: &String,
        is_append_only: bool,
        executor_id: u64,
        encode_type: SinkEncode,
    ) -> (r: OpenDalSinkWriter)
        ensures
            r@ == (OpenDalSinkWriterModel {
                sink_writer: false,
                is_append_only,
                write_path: write_path@,
                epoch: None,
                executor_id,
                encode_type,
            }),
    {
        OpenDalSinkWriter {
            sink_writer: false,
            is_append_only,
            write_path: write_path.clone(),
            epoch: None,
            executor_id,
            encode_type,
        }
    }

    pub fn begin_epoch(&mut self, epoch: u64)
        ensures
            final(self)@ == (OpenDalSinkWriterModel { epoch: Some(epoch), ..old(self)@ }),
    {
        self.epoch = Some(epoch);
    }

    /// The name of the file of an epoch: `epoch + executor_id + .suffix`.
    pub fn create_object_writer(&self, epoch: u64) -> (r: String)
        requires
            self@.encode_type == SinkEncode::Parquet,
        ensures
            r@ == self@.object_name(epoch),
    {
        let mut s = self.write_path.clone();
        s.append("/");
        append_decimal(&mut s, epoch);
        s.append("_");
        append_decimal(&mut s, self.executor_id);
        s.append(".parquet");
        assert(s@ =~= self@.object_name(epoch));
        s
    }

    /// A chunk is to be written: gives the name of the file that is to be opened first, where none
    /// is open. Only append only mode is supported.
    pub fn write_batch(&mut self) -> (r: Result<Option<String>, FileSinkError>)
        requires
            old(self)@.epoch is Some ==> old(self)@.is_append_only && old(self)@.encode_type
                == SinkEncode::Parquet,
        ensures
            match old(self)@.epoch {
                None => {
                    &&& r is Err
                    &&& r->Err_0 == FileSinkError::EpochNotInitialized
                    &&& final(self)@ == old(self)@
                },
                Some(epoch) => {
                    &&& r is Ok
                    &&& if old(self)@.sink_writer {
                        r->Ok_0 is None
                    } else {
                        r->Ok_0 is Some && r->Ok_0->0@ == old(self)@.object_name(epoch)
                    }
                    &&& final(self)@ == (OpenDalSinkWriterModel { sink_writer: true, ..old(self)@ })
                },
            },
    {
        match self.epoch {
            None => Err(FileSinkError::EpochNotInitialized),
            Some(epoch) => {
                if self.sink_writer {
                    Ok(None)
                } else {
                    let name = self.create_object_writer(epoch);
                    self.sink_writer = true;
                    Ok(Some(name))
                }
            },
        }
    }

    /// Whether the open file is to be closed: a checkpoint closes it.
    pub fn barrier(&mut self, is_checkpoint: bool) -> (r: bool)
        ensures
            r == (is_checkpoint && old(self)@.sink_writer),
            final(self)@ == (OpenDalSinkWriterModel {
                sink_writer: old(self)@.sink_writer && !is_checkpoint,
                ..old(self)@
            }),
    {
        let close = is_checkpoint && self.sink_writer;
        if close {
            self.sink_writer = false;
        }
        close
    }

    /// Which rows of a chunk are written: the visible ones that insert.
    pub fn append_only(&self, visibility: &Vec<bool>, ops: &Vec<Op>) -> (r: Result<
        Vec<bool>,
        FileSinkError,
    >)
        requires
            visibility@.len() == ops@.len(),
        ensures
            if self@.sink_writer {
                r is Ok && r->Ok_0@ == Seq::new(
                    ops@.len(),
                    |i: int| visibility@[i] && ops@[i] == Op::Insert,
                )
            } else {
                r is Err && r->Err_0 == FileSinkError::WriterNotCreated
            },
    {
        let mut filters: Vec<bool> = Vec::new();
        let mut i: usize = 0;
        while i < ops.len()
            invariant
                i <= ops.len(),
                visibility@.len() == ops@.len(),
                filters@.len() == i,
                forall|k: int|
                    0 <= k < i ==> #[trigger] filters@[k] == (visibility@[k] && ops@[k]
                        == Op::Insert),
            decreases ops.len() - i,
        {
            filters.push(visibility[i] && ops[i] == Op::Insert);
            i = i + 1;
        }
        assert(filters@ =~= Seq::new(
            ops@.len(),
            |i: int| visibility@[i] && ops@[i] == Op::Insert,
        ));
        if self.sink_writer {
            Ok(filters)
        } else {
            Err(FileSinkError::WriterNotCreated)
        }
    }
}

/// Whether no two columns of a schema have the same name, so that it can be written.
pub fn has_distinct_names(names: &Vec<String>) -> (r: bool)
    ensures
        r == views(names@).no_duplicates(),
{
    let ghost q = views(names@);
    let mut i: usize = 0;
    while i < names.len()
        invariant
            i <= names.len(),
            q == views(names@),
            forall|a: int, b: int| 0 <= a < b < i ==> #[trigger] q[a] != #[trigger] q[b],
        decreases names.len() - i,
    {
        let mut j: usize = 0;
        while j < i
            invariant
                j <= i,
                i < names.len(),
                q == views(names@),
                forall|a: int| 0 <= a < j ==> #[trigger] q[a] != q[i as int],
            decreases i - j,
        {
            if names[j] == names[i] {
                assert(q[j as int] == q[i as int]);
                return false;
            }
            j = j + 1;
        }
        i = i + 1;
    }
    assert forall|a: int, b: int| 0 <= a < q.len() && 0 <= b < q.len() && a != b implies q[a]
        != q[b] by {
        if a < b {
            assert(q[a] != q[b]);
        } else {
            assert(q[b] != q[a]);
        }
    }
    true
}

/// The file of an epoch stands under the path of the sink; behind it come the epoch and who writes it, and
/// two epochs are never written to the same file.
pub proof fn law_files_of_epochs(w: OpenDalSinkWriterModel, a: u64, b: u64)
    ensures
        w.object_name(a) == w.object_name(b) ==> a == b,
        w.object_name(a).take(w.write_path.len() as int) == w.write_path,
        w.object_name(a).skip(w.write_path.len() as int) == "/"@ + decimal(a as nat) + "_"@ + decimal(
            w.executor_id as nat,
        ) + ".parquet"@,
{
    law_decimals_are_read_back(a as nat);
    law_decimals_are_read_back(b as nat);
    let tail = "_"@ + decimal(w.executor_id as nat) + ".parquet"@;
    let head = w.write_path + "/"@;
    let x = w.object_name(a);
    let y = w.object_name(b);
    assert(x =~= head + decimal(a as nat) + tail);
    assert(y =~= head + decimal(b as nat) + tail);
    assert(x.len() == head.len() + decimal(a as nat).len() + tail.len());
    assert(y.len() == head.len() + decimal(b as nat).len() + tail.len());
    assert(x.subrange(head.len() as int, x.len() - tail.len()) =~= decimal(a as nat));
    assert(y.subrange(head.len() as int, y.len() - tail.len()) =~= decimal(b as nat));
    assert(x.take(w.write_path.len() as int) =~= w.write_path);
    assert(x.skip(w.write_path.len() as int) =~= "/"@ + decimal(a as nat) + "_"@ + decimal(
        w.executor_id as nat,
    ) + ".parquet"@);
}

} // verus!
