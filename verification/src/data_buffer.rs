use vstd::prelude::*;
use vstd::slice::slice_to_vec;
use vstd::std_specs::cmp::PartialEqSpecImpl;
use crate::call::{Command, ContextState, GlCall};
use crate::gl::{Gl, GlState, ResourceError};
use crate::settings::{differs, ArrayBufferSetting, Settings};

verus! {

/// How the contents of a buffer are expected to be used.
#[derive(Clone, Copy, Debug, PartialEq, Eq, Structural)]
pub enum BufferUsage {
    /// The data store contents will be modified once and used at most a few times.
    Stream,
    /// The data store contents will be modified once and used many times.
    Static,
    /// The data store contents will be modified repeatedly and used many times.
    Dynamic,
}

impl BufferUsage {
    /// The enumerant by which the context knows this usage hint.
    pub open spec fn code(self) -> u32 {
        match self {
            BufferUsage::Stream => 35040,
            BufferUsage::Static => 35044,
            BufferUsage::Dynamic => 35048,
        }
    }

    /// The usage hint that the context knows by `code`, if there is one.
    pub fn try_from_primitive(code: u32) -> (usage: Option<BufferUsage>)
        ensures
            match usage {
                Some(u) => u.code() == code,
                None => forall|u: BufferUsage| u.code() != code,
            },
    {
        if code == 35040 {
            Some(BufferUsage::Stream)
        } else if code == 35044 {
            Some(BufferUsage::Static)
        } else if code == 35048 {
            Some(BufferUsage::Dynamic)
        } else {
            None
        }
    }
}

impl From<BufferUsage> for u32 {
    fn from(usage: BufferUsage) -> (code: u32) {
        match usage {
            BufferUsage::Stream => 35040,
            BufferUsage::Static => 35044,
            BufferUsage::Dynamic => 35048,
        }
    }
}

impl vstd::std_specs::convert::FromSpecImpl<BufferUsage> for u32 {
    open spec fn obeys_from_spec() -> bool {
        true
    }

    open spec fn from_spec(usage: BufferUsage) -> u32 {
        usage.code()
    }
}

/// What is kept of a buffer on this side: the number under which the owner of
/// the context keeps the context's buffer object.
#[derive(Clone, Copy, Debug)]
pub struct ArrayBufferData {
    pub handle: u64,
}

/// An array buffer of the context. Copies of it stand for the same buffer.
#[derive(Clone, Copy, Debug)]
pub struct ArrayBuffer {
    pub data: ArrayBufferData,
}

impl PartialEq for ArrayBuffer {
    /// Two buffers are equal when they stand for the same buffer object.
    fn eq(&self, other: &ArrayBuffer) -> (equal: bool) {
        self.data.handle == other.data.handle
    }
}

impl PartialEqSpecImpl for ArrayBuffer {
    open spec fn obeys_eq_spec() -> bool {
        true
    }

    open spec fn eq_spec(&self, other: &ArrayBuffer) -> bool {
        self.data.handle == other.data.handle
    }
}

impl Eq for ArrayBuffer {}

impl ArrayBuffer {
    /// The state after `bytes` were written to this buffer: the upload is
    /// made while this buffer is bound as the array buffer, and what was
    /// bound before is bound again afterwards. Binding costs no call where
    /// this buffer is the one bound already.
    pub open spec fn written(self, state: GlState, bytes: Seq<u8>, usage: BufferUsage) -> GlState {
        let scope = ArrayBufferSetting(Some(self));
        scope.left(
            scope.token(state),
            scope.entered(state).called(seq![Command::BufferData { usage, bytes }]),
        )
    }

    /// What a write does to the context: the bytes reach this buffer,
    /// whatever was bound before, and nothing else that the context holds
    /// is changed.
    pub proof fn lemma_written(self, state: GlState, bytes: Seq<u8>, usage: BufferUsage)
        requires
            state.wf(),
        ensures
            self.written(state, bytes, usage).context() == (ContextState {
                buffers: state.context().buffers.insert(self.data.handle, (usage, bytes)),
                ..state.context()
            }),
    {
        let scope = ArrayBufferSetting(Some(self));
        let upload = Command::BufferData { usage, bytes };
        let inside = scope.entered(state);
        state.lemma_context_aspects();
        inside.lemma_context_called(upload);
        if differs(&scope, state.cache) {
            let bind = Command::BindBuffer(Some(self.data.handle));
            let back = Command::BindBuffer(state.cache.array_buffer);
            state.lemma_context_called(bind);
            inside.called(seq![upload]).lemma_context_called(back);
            assert(inside.calls == state.called(seq![bind]).calls);
            assert(self.written(state, bytes, usage).calls == inside.called(seq![upload]).called(
                seq![back],
            ).calls);
        }
    }

    /// Takes a buffer object into use and writes `data` to it. `created` is
    /// what the context answered when it was asked for a new buffer object:
    /// the number under which the caller keeps the object, or `None` where
    /// the context refused. On a refusal nothing is done.
    pub fn new(gl: &mut Gl, created: Option<u64>, data: &[u8], usage: BufferUsage) -> (result:
        Result<ArrayBuffer, ResourceError>)
        requires
            old(gl).wf(),
        ensures
            final(gl).wf(),
            match result {
                Ok(buffer) => {
                    &&& created == Some(buffer.data.handle)
                    &&& final(gl)@ == buffer.written(old(gl)@, data@, usage)
                    &&& final(gl)@.context().buffers[buffer.data.handle] == (usage, data@)
                },
                Err(error) => {
                    &&& created is None
                    &&& error == ResourceError::CreationRefused
                    &&& final(gl)@ == old(gl)@
                },
            },
    {
        let handle = match created {
            Some(handle) => handle,
            None => {
                return Err(ResourceError::CreationRefused);
            },
        };
        let result = ArrayBuffer { data: ArrayBufferData { handle: handle } };
        result.write(gl, data, usage);
        Ok(result)
    }

    /// Writes `data` to this buffer; see [`ArrayBuffer::written`].
    pub fn write(&self, gl: &mut Gl, data: &[u8], usage: BufferUsage)
        requires
            old(gl).wf(),
        ensures
            final(gl).wf(),
            final(gl)@ == self.written(old(gl)@, data@, usage),
            final(gl)@.context().buffers[self.data.handle] == (usage, data@),
    {
        proof {
            self.lemma_written(gl@, data@, usage);
        }
        let bytes = slice_to_vec(data);
        let ghost upload_command = Command::BufferData { usage, bytes: data@ };
        let upload = |g: &mut Gl|
            requires
                g.wf(),
            ensures
                final(g).wf(),
                final(g)@ == old(g)@.called(seq![upload_command]),
            {
                proof {
                    g@.cache.lemma_after_one(upload_command);
                    g@.lemma_called(seq![upload_command]);
                }
                g.call(GlCall::BufferData { usage: usage, bytes: bytes });
            };
        gl.apply(Gl::settings().array_buffer(*self), upload);
    }

    /// The number under which the owner of the context keeps this buffer.
    pub fn handle(&self) -> (handle: u64)
        ensures
            handle == self.data.handle,
    {
        self.data.handle
    }
}

/// The handle of the buffer in `buffer`, if there is one.
pub open spec fn buffer_handle(buffer: Option<ArrayBuffer>) -> Option<u64> {
    match buffer {
        Some(b) => Some(b.data.handle),
        None => None,
    }
}

} // verus!
