use vstd::prelude::*;
use vstd::std_specs::cmp::PartialEqSpecImpl;
use crate::call::{AspectState, Command, ContextState, FilterParameter, GlCall, Image};
use crate::gl::{Gl, GlState, ResourceError};
use crate::settings::{Settings, TextureSetting};

verus! {

/// How a texture is sampled between its texels.
#[derive(Clone, Copy, Debug, PartialEq, Eq, Structural)]
pub enum TextureFilter {
    Nearest,
    Linear,
}

/// The type of one channel of a texel.
#[derive(Clone, Copy, Debug, PartialEq, Eq, Structural)]
pub enum TextureType {
    Byte,
    Float,
}

/// The channels of a texel.
#[derive(Clone, Copy, Debug, PartialEq, Eq, Structural)]
pub enum TextureFormat {
    Alpha,
    Luminance,
    LuminanceAlpha,
    Rgb,
    Rgba,
}

/// The number of texture units that are tracked.
pub const TEXTURES_COUNT: u32 = 16;

impl TextureFilter {
    /// The enumerant by which the context knows this filter.
    pub open spec fn code(self) -> i32 {
        match self {
            TextureFilter::Nearest => 9728,
            TextureFilter::Linear => 9729,
        }
    }

    /// The filter that the context knows by `code`, if there is one.
    pub fn try_from_primitive(code: i32) -> (filter: Option<TextureFilter>)
        ensures
            match filter {
                Some(f) => f.code() == code,
                None => forall|f: TextureFilter| f.code() != code,
            },
    {
        if code == 9728 {
            Some(TextureFilter::Nearest)
        } else if code == 9729 {
            Some(TextureFilter::Linear)
        } else {
            None
        }
    }
}

impl Default for TextureFilter {
    fn default() -> (filter: TextureFilter)
        ensures
            filter == TextureFilter::Linear,
    {
        TextureFilter::Linear
    }
}

impl From<TextureFilter> for i32 {
    fn from(filter: TextureFilter) -> (code: i32) {
        match filter {
            TextureFilter::Nearest => 9728,
            TextureFilter::Linear => 9729,
        }
    }
}

impl vstd::std_specs::convert::FromSpecImpl<TextureFilter> for i32 {
    open spec fn obeys_from_spec() -> bool {
        true
    }

    open spec fn from_spec(filter: TextureFilter) -> i32 {
        filter.code()
    }
}

impl TextureType {
    /// The enumerant by which the context knows this channel type.
    pub open spec fn code(self) -> u32 {
        match self {
            TextureType::Byte => 5121,
            TextureType::Float => 5126,
        }
    }

    /// The channel type that the context knows by `code`, if there is one.
    pub fn try_from_primitive(code: u32) -> (data_type: Option<TextureType>)
        ensures
            match data_type {
                Some(t) => t.code() == code,
                None => forall|t: TextureType| t.code() != code,
            },
    {
        if code == 5121 {
            Some(TextureType::Byte)
        } else if code == 5126 {
            Some(TextureType::Float)
        } else {
            None
        }
    }
}

impl From<TextureType> for u32 {
    fn from(data_type: TextureType) -> (code: u32) {
        match data_type {
            TextureType::Byte => 5121,
            TextureType::Float => 5126,
        }
    }
}

impl vstd::std_specs::convert::FromSpecImpl<TextureType> for u32 {
    open spec fn obeys_from_spec() -> bool {
        true
    }

    open spec fn from_spec(data_type: TextureType) -> u32 {
        data_type.code()
    }
}

impl TextureFormat {
    /// The enumerant by which the context knows this format.
    pub open spec fn code(self) -> u32 {
        match self {
            TextureFormat::Alpha => 6406,
            TextureFormat::Rgb => 6407,
            TextureFormat::Rgba => 6408,
            TextureFormat::Luminance => 6409,
            TextureFormat::LuminanceAlpha => 6410,
        }
    }

    /// The format that the context knows by `code`, if there is one.
    pub fn try_from_primitive(code: u32) -> (format: Option<TextureFormat>)
        ensures
            match format {
                Some(f) => f.code() == code,
                None => forall|f: TextureFormat| f.code() != code,
            },
    {
        if code == 6406 {
            Some(TextureFormat::Alpha)
        } else if code == 6407 {
            Some(TextureFormat::Rgb)
        } else if code == 6408 {
            Some(TextureFormat::Rgba)
        } else if code == 6409 {
            Some(TextureFormat::Luminance)
        } else if code == 6410 {
            Some(TextureFormat::LuminanceAlpha)
        } else {
            None
        }
    }
}

impl From<TextureFormat> for u32 {
    fn from(format: TextureFormat) -> (code: u32) {
        match format {
            TextureFormat::Alpha => 6406,
            TextureFormat::Rgb => 6407,
            TextureFormat::Rgba => 6408,
            TextureFormat::Luminance => 6409,
            TextureFormat::LuminanceAlpha => 6410,
        }
    }
}

impl vstd::std_specs::convert::FromSpecImpl<TextureFormat> for u32 {
    open spec fn obeys_from_spec() -> bool {
        true
    }

    open spec fn from_spec(format: TextureFormat) -> u32 {
        format.code()
    }
}

/// What a texture holds when it is created.
#[derive(Debug, PartialEq, Eq)]
pub enum TextureContent {
    /// Storage is allocated and left as the context makes it.
    Empty,
    /// The pixels of a decoded image, which the owner of the context knows by
    /// this number.
    Image(u64),
    /// Raw pixel data.
    Bytes(Vec<u8>),
}

/// A [`TextureContent`] as contracts see it.
pub ghost enum ContentView {
    Empty,
    Image(u64),
    Bytes(Seq<u8>),
}

impl View for TextureContent {
    type V = ContentView;

    open spec fn view(&self) -> ContentView {
        match self {
            TextureContent::Empty => ContentView::Empty,
            TextureContent::Image(image) => ContentView::Image(*image),
            TextureContent::Bytes(bytes) => ContentView::Bytes(bytes@),
        }
    }
}

/// What is kept of a texture on this side: the number under which the owner
/// of the context keeps the context's texture object, and the metadata the
/// texture was created with.
#[derive(Clone, Copy, Debug)]
pub struct TextureInfo {
    pub handle: u64,
    pub width: u32,
    pub height: u32,
    pub data_type: TextureType,
    pub format: TextureFormat,
}

impl PartialEq for TextureInfo {
    /// Two records are equal when they stand for the same texture object.
    fn eq(&self, other: &TextureInfo) -> (equal: bool) {
        self.handle == other.handle
    }
}

impl PartialEqSpecImpl for TextureInfo {
    open spec fn obeys_eq_spec() -> bool {
        true
    }

    open spec fn eq_spec(&self, other: &TextureInfo) -> bool {
        self.handle == other.handle
    }
}

impl Eq for TextureInfo {}

/// A texture of the context. Copies of it stand for the same texture.
#[derive(Clone, Copy, Debug)]
pub struct Texture {
    pub data: TextureInfo,
}

impl PartialEq for Texture {
    /// Two textures are equal when they stand for the same texture object.
    fn eq(&self, other: &Texture) -> (equal: bool) {
        self.data.handle == other.data.handle
    }
}

impl PartialEqSpecImpl for Texture {
    open spec fn obeys_eq_spec() -> bool {
        true
    }

    open spec fn eq_spec(&self, other: &Texture) -> bool {
        self.data.handle == other.data.handle
    }
}

impl Eq for Texture {}

/// The handle of the texture in `texture`, if there is one.
pub open spec fn texture_handle(texture: Option<Texture>) -> Option<u64> {
    match texture {
        Some(t) => Some(t.data.handle),
        None => None,
    }
}

/// The two calls that set both filters of the texture bound at unit 0.
pub open spec fn filter_commands(filter: TextureFilter) -> Seq<Command> {
    seq![
        Command::TexParameter { parameter: FilterParameter::Magnification, filter },
        Command::TexParameter { parameter: FilterParameter::Minification, filter },
    ]
}

impl Texture {
    /// The state after this texture was given `filter`. Nothing happens
    /// where the texture has that filter already. Otherwise the two
    /// parameter calls are made while the texture is bound at unit 0, and
    /// what was bound there before is bound again afterwards.
    pub open spec fn filtered(self, state: GlState, filter: TextureFilter) -> GlState {
        if state.filter_of(self.data.handle) == filter {
            state
        } else {
            let scope = TextureSetting { index: 0, texture: Some(self) };
            let inside = scope.entered(state).called(filter_commands(filter));
            scope.left(scope.token(state), inside.with_filter(self.data.handle, filter))
        }
    }

    /// The state after this texture was created with `content`: the texture
    /// is recorded with the filter that a new texture is taken to have, and
    /// its image was defined while it was bound at unit 0.
    pub open spec fn created(self, state: GlState, content: ContentView) -> GlState {
        let scope = TextureSetting { index: 0, texture: Some(self) };
        let registered = state.with_filter(self.data.handle, TextureFilter::Linear);
        scope.left(
            scope.token(registered),
            scope.entered(registered).called(seq![self.image_command(content)]),
        )
    }

    /// The call that defines this texture's image.
    pub open spec fn image_command(self, content: ContentView) -> Command {
        Command::TexImage {
            width: self.data.width,
            height: self.data.height,
            format: self.data.format,
            data_type: self.data.data_type,
            content,
        }
    }

    /// Takes a texture object into use and defines its image. `created` is
    /// what the context answered when it was asked for a new texture
    /// object: the number under which the caller keeps the object, or `None`
    /// where the context refused. On a refusal nothing is done.
    pub fn new(
        gl: &mut Gl,
        created: Option<u64>,
        width: u32,
        height: u32,
        data_type: TextureType,
        format: TextureFormat,
        data: TextureContent,
    ) -> (result: Result<Texture, ResourceError>)
        requires
            old(gl).wf(),
        ensures
            final(gl).wf(),
            match result {
                Ok(texture) => {
                    &&& created == Some(texture.data.handle)
                    &&& texture.data.width == width
                    &&& texture.data.height == height
                    &&& texture.data.data_type == data_type
                    &&& texture.data.format == format
                    &&& final(gl)@ == texture.created(old(gl)@, data@)
                    &&& final(gl)@.filter_of(texture.data.handle) == TextureFilter::Linear
                    &&& final(gl)@.context().images[texture.data.handle] == (Image {
                        width,
                        height,
                        format,
                        data_type,
                        content: data@,
                    })
                },
                Err(error) => {
                    &&& created is None
                    &&& error == ResourceError::CreationRefused
                    &&& final(gl)@ == old(gl)@
                },
            },
    {
        let handle = match created {
            Some(handle) => handle,
            None => {
                return Err(ResourceError::CreationRefused);
            },
        };
        let result = Texture {
            data: TextureInfo {
                handle: handle,
                width: width,
                height: height,
                data_type: data_type,
                format: format,
            },
        };
        proof {
            result.lemma_created(gl@, data@);
        }
        gl.record_filter(handle, TextureFilter::default());
        let ghost content = data@;
        let upload = |g: &mut Gl|
            requires
                g.wf(),
            ensures
                final(g).wf(),
                final(g)@ == old(g)@.called(seq![result.image_command(content)]),
            {
                proof {
                    g@.cache.lemma_after_one(result.image_command(content));
                    g@.lemma_called(seq![result.image_command(content)]);
                }
                g.call(
                    GlCall::TexImage {
                        width: width,
                        height: height,
                        format: format,
                        data_type: data_type,
                        content: data,
                    },
                );
            };
        gl.apply(Gl::settings().texture(0, result), upload);
        Ok(result)
    }

    /// Giving a texture a filter leaves what the cache records as it is, and
    /// keeps cache and context in agreement.
    pub proof fn lemma_filtered(self, state: GlState, filter: TextureFilter)
        requires
            state.cache.wf(),
        ensures
            self.filtered(state, filter).cache == state.cache,
            state.wf() ==> self.filtered(state, filter).wf(),
    {
        let scope = TextureSetting { index: 0, texture: Some(self) };
        let inside = scope.entered(state).called(filter_commands(filter));
        let written = inside.with_filter(self.data.handle, filter);
        assert(scope.left(scope.token(state), written).cache.textures =~= state.cache.textures);
        if state.wf() {
            scope.lemma_scope(state, written);
            lemma_filter_commands(scope.entered(state), filter);
        }
    }

    /// What a change of filter does to the context: both filters of this
    /// texture become `filter`, whatever was bound before, and nothing else
    /// that the context holds is changed.
    pub proof fn lemma_filtered_context(self, state: GlState, filter: TextureFilter)
        requires
            state.wf(),
            state.filter_of(self.data.handle) != filter,
        ensures
            self.filtered(state, filter).context() == (ContextState {
                magnification: state.context().magnification.insert(self.data.handle, filter),
                minification: state.context().minification.insert(self.data.handle, filter),
                ..state.context()
            }),
    {
        let scope = TextureSetting { index: 0, texture: Some(self) };
        let commands = filter_commands(filter);
        let inside = scope.entered(state);
        let first = inside.called(seq![commands[0]]);
        let second = first.called(seq![commands[1]]);
        state.lemma_context_aspects();
        inside.lemma_context_called(commands[0]);
        first.lemma_context_called(commands[1]);
        assert(second.calls =~= inside.called(commands).calls);
        if scope.differs(state.cache) {
            let bind = Command::BindTexture { unit: 0, texture: Some(self.data.handle) };
            let back = Command::BindTexture { unit: 0, texture: state.cache.textures[0] };
            state.lemma_context_called(bind);
            second.lemma_context_called(back);
            assert(self.filtered(state, filter).calls == second.called(seq![back]).calls);
            assert(self.filtered(state, filter).context().aspects.textures
                =~= state.cache.textures);
        }
    }

    /// What creating does to the context: this texture is given its image,
    /// whatever was bound before, and nothing else that the context holds is
    /// changed.
    pub proof fn lemma_created(self, state: GlState, content: ContentView)
        requires
            state.wf(),
        ensures
            self.created(state, content).context() == (ContextState {
                images: state.context().images.insert(
                    self.data.handle,
                    (Image {
                        width: self.data.width,
                        height: self.data.height,
                        format: self.data.format,
                        data_type: self.data.data_type,
                        content,
                    }),
                ),
                ..state.context()
            }),
    {
        let scope = TextureSetting { index: 0, texture: Some(self) };
        let registered = state.with_filter(self.data.handle, TextureFilter::Linear);
        let inside = scope.entered(registered);
        let upload = self.image_command(content);
        registered.lemma_context_aspects();
        inside.lemma_context_called(upload);
        if scope.differs(state.cache) {
            let bind = Command::BindTexture { unit: 0, texture: Some(self.data.handle) };
            let back = Command::BindTexture { unit: 0, texture: state.cache.textures[0] };
            registered.lemma_context_called(bind);
            inside.called(seq![upload]).lemma_context_called(back);
            assert(self.created(state, content).calls == inside.called(seq![upload]).called(
                seq![back],
            ).calls);
            assert(self.created(state, content).context().aspects.textures
                =~= state.cache.textures);
        }
    }

    /// The width in texels.
    pub fn width(&self) -> (width: u32)
        ensures
            width == self.data.width,
    {
        self.data.width
    }

    /// The height in texels.
    pub fn height(&self) -> (height: u32)
        ensures
            height == self.data.height,
    {
        self.data.height
    }

    /// The type of one channel of a texel.
    pub fn data_type(&self) -> (data_type: TextureType)
        ensures
            data_type == self.data.data_type,
    {
        self.data.data_type
    }

    /// The channels of a texel.
    pub fn format(&self) -> (format: TextureFormat)
        ensures
            format == self.data.format,
    {
        self.data.format
    }

    /// Width and height in texels.
    pub fn size(&self) -> (size: (u32, u32))
        ensures
            size == (self.data.width, self.data.height),
    {
        (self.width(), self.height())
    }

    /// The filter with which this texture is sampled.
    pub fn filter(&self, gl: &Gl) -> (filter: TextureFilter)
        ensures
            filter == gl@.filter_of(self.data.handle),
    {
        gl.filter_of(self.data.handle)
    }

    /// Gives this texture another filter; see [`Texture::filtered`].
    pub fn set_filter(&self, gl: &mut Gl, filter: TextureFilter)
        requires
            old(gl).wf(),
        ensures
            final(gl).wf(),
            final(gl)@ == self.filtered(old(gl)@, filter),
            final(gl)@.filter_of(self.data.handle) == filter,
            old(gl)@.filter_of(self.data.handle) != filter ==> {
                &&& final(gl)@.context().magnification[self.data.handle] == filter
                &&& final(gl)@.context().minification[self.data.handle] == filter
            },
    {
        proof {
            if gl@.filter_of(self.data.handle) != filter {
                self.lemma_filtered_context(gl@, filter);
            }
        }
        if self.filter(gl) != filter {
            let handle = self.data.handle;
            let write = |g: &mut Gl|
                requires
                    g.wf(),
                ensures
                    final(g).wf(),
                    final(g)@ == old(g)@.called(filter_commands(filter)).with_filter(
                        handle,
                        filter,
                    ),
                {
                    proof {
                        lemma_filter_commands(g@, filter);
                    }
                    g.call(
                        GlCall::TexParameter { parameter: FilterParameter::Magnification, filter },
                    );
                    g.call(
                        GlCall::TexParameter { parameter: FilterParameter::Minification, filter },
                    );
                    g.record_filter(handle, filter);
                    assert(g@.calls =~= old(g)@.calls + filter_commands(filter));
                };
            gl.apply(Gl::settings().texture(0, *self), write);
        }
    }
}

/// The two filter calls leave every tracked aspect as it is.
pub proof fn lemma_filter_commands(state: GlState, filter: TextureFilter)
    requires
        state.wf(),
    ensures
        state.called(filter_commands(filter)).wf(),
{
    let commands = filter_commands(filter);
    AspectState::initial().lemma_after_all_concat(state.calls, commands);
    state.cache.lemma_after_one(commands[0]);
    state.cache.lemma_after_all_push(seq![commands[0]], commands[1]);
    assert(seq![commands[0]].push(commands[1]) =~= commands);
}

} // verus!
