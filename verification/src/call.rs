use vstd::prelude::*;
use crate::data_buffer::BufferUsage;
use crate::texture::{ContentView, TextureContent, TextureFilter, TextureFormat, TextureType};
use crate::texture::TEXTURES_COUNT;

verus! {

/// A flag of the context that is switched on or off.
#[derive(Clone, Copy, Debug, PartialEq, Eq, Structural)]
pub enum Capability {
    Blend,
    DepthTest,
}

/// Which of a texture's two filters a parameter call sets.
#[derive(Clone, Copy, Debug, PartialEq, Eq, Structural)]
pub enum FilterParameter {
    Magnification,
    Minification,
}

/// One call on the graphics context. Buffers, textures and images are named
/// by the numbers under which the owner of the context keeps them.
#[derive(Debug, PartialEq, Eq)]
pub enum GlCall {
    /// Switch a capability on.
    Enable(Capability),
    /// Switch a capability off.
    Disable(Capability),
    /// Make the given texture unit the active one.
    ActiveTexture(u32),
    /// Bind a buffer as the array buffer, or unbind with `None`.
    BindBuffer(Option<u64>),
    /// Bind a texture at a unit, or unbind with `None`.
    BindTexture { unit: u32, texture: Option<u64> },
    /// Set one filter of the texture bound at unit 0.
    TexParameter { parameter: FilterParameter, filter: TextureFilter },
    /// Upload bytes into the bound array buffer.
    BufferData { usage: BufferUsage, bytes: Vec<u8> },
    /// Define the image of the texture bound at unit 0.
    TexImage {
        width: u32,
        height: u32,
        format: TextureFormat,
        data_type: TextureType,
        content: TextureContent,
    },
}

/// A [`GlCall`] as contracts see it.
pub ghost enum Command {
    Enable(Capability),
    Disable(Capability),
    ActiveTexture(u32),
    BindBuffer(Option<u64>),
    BindTexture { unit: u32, texture: Option<u64> },
    TexParameter { parameter: FilterParameter, filter: TextureFilter },
    BufferData { usage: BufferUsage, bytes: Seq<u8> },
    TexImage {
        width: u32,
        height: u32,
        format: TextureFormat,
        data_type: TextureType,
        content: ContentView,
    },
}

impl View for GlCall {
    type V = Command;

    open spec fn view(&self) -> Command {
        match self {
            GlCall::Enable(capability) => Command::Enable(*capability),
            GlCall::Disable(capability) => Command::Disable(*capability),
            GlCall::ActiveTexture(unit) => Command::ActiveTexture(*unit),
            GlCall::BindBuffer(buffer) => Command::BindBuffer(*buffer),
            GlCall::BindTexture { unit, texture } => Command::BindTexture {
                unit: *unit,
                texture: *texture,
            },
            GlCall::TexParameter { parameter, filter } => Command::TexParameter {
                parameter: *parameter,
                filter: *filter,
            },
            GlCall::BufferData { usage, bytes } => Command::BufferData {
                usage: *usage,
                bytes: bytes@,
            },
            GlCall::TexImage { width, height, format, data_type, content } => Command::TexImage {
                width: *width,
                height: *height,
                format: *format,
                data_type: *data_type,
                content: content@,
            },
        }
    }
}

/// The value of every tracked aspect: what the context holds for each, and
/// equally what the cache records for each.
#[verifier::ext_equal]
pub ghost struct AspectState {
    pub blend: bool,
    pub depth_test: bool,
    pub active_texture: u32,
    pub array_buffer: Option<u64>,
    pub textures: Seq<Option<u64>>,
}

impl AspectState {
    /// The state of a freshly created context: both capabilities off, unit 0
    /// active, nothing bound.
    pub open spec fn initial() -> AspectState {
        AspectState {
            blend: false,
            depth_test: false,
            active_texture: 0,
            array_buffer: None,
            textures: Seq::new(TEXTURES_COUNT as nat, |unit: int| None),
        }
    }

    /// There is one binding for each texture unit.
    pub open spec fn wf(self) -> bool {
        self.textures.len() == TEXTURES_COUNT
    }

    /// This state with another binding at one texture unit.
    pub open spec fn with_texture(self, unit: u32, texture: Option<u64>) -> AspectState {
        AspectState { textures: self.textures.update(unit as int, texture), ..self }
    }

    /// The state after one more call. Uploads and filter parameters leave
    /// every tracked aspect as it is, and so does a bind at a unit that does
    /// not exist.
    pub open spec fn after(self, command: Command) -> AspectState {
        match command {
            Command::Enable(Capability::Blend) => AspectState { blend: true, ..self },
            Command::Disable(Capability::Blend) => AspectState { blend: false, ..self },
            Command::Enable(Capability::DepthTest) => AspectState { depth_test: true, ..self },
            Command::Disable(Capability::DepthTest) => AspectState { depth_test: false, ..self },
            Command::ActiveTexture(unit) => AspectState { active_texture: unit, ..self },
            Command::BindBuffer(buffer) => AspectState { array_buffer: buffer, ..self },
            Command::BindTexture { unit, texture } => if unit < self.textures.len() {
                self.with_texture(unit, texture)
            } else {
                self
            },
            Command::TexParameter { .. } => self,
            Command::BufferData { .. } => self,
            Command::TexImage { .. } => self,
        }
    }

    /// The state after a sequence of calls, made in order.
    pub open spec fn after_all(self, commands: Seq<Command>) -> AspectState
        decreases commands.len(),
    {
        if commands.len() == 0 {
            self
        } else {
            self.after_all(commands.drop_last()).after(commands.last())
        }
    }

    /// Calls made one after another act as the two runs of them in turn.
    pub proof fn lemma_after_all_concat(self, first: Seq<Command>, second: Seq<Command>)
        ensures
            self.after_all(first + second) == self.after_all(first).after_all(second),
        decreases second.len(),
    {
        if second.len() == 0 {
            assert(first + second =~= first);
        } else {
            self.lemma_after_all_concat(first, second.drop_last());
            assert((first + second).drop_last() =~= first + second.drop_last());
            assert((first + second).last() == second.last());
        }
    }

    /// A single call acts as the one step that it is.
    pub proof fn lemma_after_one(self, command: Command)
        ensures
            self.after_all(seq![command]) == self.after(command),
    {
        assert(seq![command].drop_last() =~= Seq::<Command>::empty());
        assert(self.after_all(seq![command].drop_last()) == self);
    }

    /// One more call acts on the state that the calls before it made.
    pub proof fn lemma_after_all_push(self, commands: Seq<Command>, command: Command)
        ensures
            self.after_all(commands.push(command)) == self.after_all(commands).after(command),
    {
        assert(commands.push(command).drop_last() =~= commands);
    }
}

/// The image that a texture was given.
pub ghost struct Image {
    pub width: u32,
    pub height: u32,
    pub format: TextureFormat,
    pub data_type: TextureType,
    pub content: ContentView,
}

/// What the context holds: the tracked aspects, and what its buffers and
/// textures were given. An upload reaches the buffer that is bound as the
/// array buffer at that moment; a filter parameter and an image reach the
/// texture that is bound at unit 0 at that moment; each is lost where
/// nothing is bound there.
#[verifier::ext_equal]
pub ghost struct ContextState {
    pub aspects: AspectState,
    pub buffers: Map<u64, (BufferUsage, Seq<u8>)>,
    pub magnification: Map<u64, TextureFilter>,
    pub minification: Map<u64, TextureFilter>,
    pub images: Map<u64, Image>,
}

impl ContextState {
    /// A freshly created context, without any object.
    pub open spec fn initial() -> ContextState {
        ContextState {
            aspects: AspectState::initial(),
            buffers: Map::empty(),
            magnification: Map::empty(),
            minification: Map::empty(),
            images: Map::empty(),
        }
    }

    /// The context after one more call.
    pub open spec fn after(self, command: Command) -> ContextState {
        let aspects = self.aspects.after(command);
        match (command, self.aspects.array_buffer, self.aspects.textures[0]) {
            (Command::BufferData { usage, bytes }, Some(buffer), _) => ContextState {
                buffers: self.buffers.insert(buffer, (usage, bytes)),
                aspects,
                ..self
            },
            (
                Command::TexParameter { parameter: FilterParameter::Magnification, filter },
                _,
                Some(texture),
            ) => ContextState {
                magnification: self.magnification.insert(texture, filter),
                aspects,
                ..self
            },
            (
                Command::TexParameter { parameter: FilterParameter::Minification, filter },
                _,
                Some(texture),
            ) => ContextState {
                minification: self.minification.insert(texture, filter),
                aspects,
                ..self
            },
            (
                Command::TexImage { width, height, format, data_type, content },
                _,
                Some(texture),
            ) => ContextState {
                images: self.images.insert(
                    texture,
                    Image { width, height, format, data_type, content },
                ),
                aspects,
                ..self
            },
            _ => ContextState { aspects, ..self },
        }
    }

    /// The context after a sequence of calls, made in order.
    pub open spec fn after_all(self, commands: Seq<Command>) -> ContextState
        decreases commands.len(),
    {
        if commands.len() == 0 {
            self
        } else {
            self.after_all(commands.drop_last()).after(commands.last())
        }
    }

    /// One more call acts on the context that the calls before it made.
    pub proof fn lemma_after_all_push(self, commands: Seq<Command>, command: Command)
        ensures
            self.after_all(commands.push(command)) == self.after_all(commands).after(command),
    {
        assert(commands.push(command).drop_last() =~= commands);
    }

    /// The tracked aspects go their own way, whatever the objects hold.
    pub proof fn lemma_after_all_aspects(self, commands: Seq<Command>)
        ensures
            self.after_all(commands).aspects == self.aspects.after_all(commands),
        decreases commands.len(),
    {
        if commands.len() > 0 {
            self.lemma_after_all_aspects(commands.drop_last());
        }
    }
}

} // verus!
