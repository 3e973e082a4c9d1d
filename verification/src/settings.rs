use vstd::prelude::*;
use vstd::std_specs::cmp::{PartialEqSpec, PartialEqSpecImpl};
use crate::call::{AspectState, Capability, Command, GlCall};
use crate::data_buffer::{buffer_handle, ArrayBuffer, ArrayBufferData};
use crate::gl::{Gl, GlState};
use crate::texture::{texture_handle, Texture, TextureFilter, TEXTURES_COUNT};

verus! {

/// The active texture unit.
#[derive(Clone, Copy, Debug)]
pub struct ActiveTextureSetting(pub u32);

/// The buffer bound as the array buffer, if any.
#[derive(Clone, Copy, Debug)]
pub struct ArrayBufferSetting(pub Option<ArrayBuffer>);

/// Whether blending is enabled.
#[derive(Clone, Copy, Debug)]
pub struct BlendSetting(pub bool);

/// Whether depth testing is enabled.
#[derive(Clone, Copy, Debug)]
pub struct DepthTestSetting(pub bool);

/// The last value applied for each tracked aspect of the context.
#[derive(Debug)]
pub struct SettingsCache {
    blend: BlendSetting,
    depth: DepthTestSetting,
    active_texture: ActiveTextureSetting,
    array_buffer: ArrayBufferSetting,
    textures: [Option<u64>; 16],
}

impl View for SettingsCache {
    type V = AspectState;

    closed spec fn view(&self) -> AspectState {
        AspectState {
            blend: self.blend.0,
            depth_test: self.depth.0,
            active_texture: self.active_texture.0,
            array_buffer: buffer_handle(self.array_buffer.0),
            textures: self.textures@,
        }
    }
}

impl Default for SettingsCache {
    /// The cache of a freshly created context.
    fn default() -> (cache: SettingsCache)
        ensures
            cache@ == AspectState::initial(),
    {
        let textures: [Option<u64>; 16] = [None; 16];
        let cache = SettingsCache {
            blend: BlendSetting(false),
            depth: DepthTestSetting(false),
            active_texture: ActiveTextureSetting(0),
            array_buffer: ArrayBufferSetting(None),
            textures,
        };
        assert(cache@.textures =~= AspectState::initial().textures);
        cache
    }
}

impl SettingsCache {
    /// The texture recorded as bound at a unit.
    pub(crate) fn texture(&self, unit: u32) -> (texture: Option<u64>)
        requires
            unit < TEXTURES_COUNT,
        ensures
            texture == self@.textures[unit as int],
            self@.wf(),
    {
        self.textures[unit as usize]
    }

    /// Records the texture bound at a unit.
    pub(crate) fn set_texture(&mut self, unit: u32, texture: Option<u64>)
        requires
            unit < TEXTURES_COUNT,
        ensures
            final(self)@ == old(self)@.with_texture(unit, texture),
    {
        self.textures[unit as usize] = texture;
    }
}

/// One aspect of the context's state whose last applied value the cache
/// records, such as a capability or a binding point.
pub trait CachedSettings: Sized + PartialEq {
    /// Whether the context supports this value.
    spec fn in_range(&self) -> bool;

    /// The calls that make the context hold this value.
    spec fn commands(&self) -> Seq<Command>;

    /// The value that a cache records for this aspect.
    spec fn cached(cache: AspectState) -> Self;

    /// The cache after this value was written to it.
    spec fn stored(&self, cache: AspectState) -> AspectState;

    /// Whether the context supports this value.
    fn is_in_range(&self) -> (supported: bool)
        ensures
            supported == self.in_range(),
    ;

    /// Makes the context hold `value`. The cache is left alone.
    fn set(gl: &mut Gl, value: &Self)
        ensures
            final(gl)@ == old(gl)@.called(value.commands()),
    ;

    /// Reads the value of this aspect from the cache.
    fn get_cached(cache: &SettingsCache) -> (value: Self)
        ensures
            value == Self::cached(cache@),
            cache@.wf(),
    ;

    /// Writes `value` to the cache.
    fn set_cached(cache: &mut SettingsCache, value: &Self)
        ensures
            final(cache)@ == value.stored(old(cache)@),
    ;

    /// What holds of every aspect: equality is decided by `==`; the calls
    /// of a value do to the context what writing the value does to the
    /// cache; the value read from a cache, written back over any other,
    /// gives the cache again; and a value equal to the one recorded leaves
    /// the cache as it is.
    proof fn lemma_aspect(value: Self, cache: AspectState)
        requires
            cache.wf(),
        ensures
            Self::obeys_eq_spec(),
            value.stored(cache).wf(),
            cache.after_all(value.commands()) == value.stored(cache),
            Self::cached(cache).stored(value.stored(cache)) == cache,
            value.eq_spec(&Self::cached(value.stored(cache))),
            value.eq_spec(&Self::cached(cache)) ==> value.stored(cache) == cache,
    ;
}

impl PartialEq for BlendSetting {
    fn eq(&self, other: &BlendSetting) -> (equal: bool) {
        self.0 == other.0
    }
}

impl PartialEqSpecImpl for BlendSetting {
    open spec fn obeys_eq_spec() -> bool {
        true
    }

    open spec fn eq_spec(&self, other: &BlendSetting) -> bool {
        self.0 == other.0
    }
}

impl Eq for BlendSetting {}

impl Default for BlendSetting {
    fn default() -> (setting: BlendSetting)
        ensures
            setting == BlendSetting(false),
    {
        BlendSetting(false)
    }
}

impl CachedSettings for BlendSetting {
    open spec fn in_range(&self) -> bool {
        true
    }

    open spec fn commands(&self) -> Seq<Command> {
        if self.0 {
            seq![Command::Enable(Capability::Blend)]
        } else {
            seq![Command::Disable(Capability::Blend)]
        }
    }

    open spec fn cached(cache: AspectState) -> BlendSetting {
        BlendSetting(cache.blend)
    }

    open spec fn stored(&self, cache: AspectState) -> AspectState {
        AspectState { blend: self.0, ..cache }
    }

    fn is_in_range(&self) -> (supported: bool) {
        true
    }

    fn set(gl: &mut Gl, value: &BlendSetting) {
        if value.0 {
            gl.call(GlCall::Enable(Capability::Blend))
        } else {
            gl.call(GlCall::Disable(Capability::Blend))
        }
    }

    fn get_cached(cache: &SettingsCache) -> (value: BlendSetting) {
        cache.blend
    }

    fn set_cached(cache: &mut SettingsCache, value: &BlendSetting) {
        cache.blend = *value;
    }

    proof fn lemma_aspect(value: BlendSetting, cache: AspectState) {
        cache.lemma_after_one(value.commands()[0]);
    }
}

impl PartialEq for DepthTestSetting {
    fn eq(&self, other: &DepthTestSetting) -> (equal: bool) {
        self.0 == other.0
    }
}

impl PartialEqSpecImpl for DepthTestSetting {
    open spec fn obeys_eq_spec() -> bool {
        true
    }

    open spec fn eq_spec(&self, other: &DepthTestSetting) -> bool {
        self.0 == other.0
    }
}

impl Eq for DepthTestSetting {}

impl Default for DepthTestSetting {
    fn default() -> (setting: DepthTestSetting)
        ensures
            setting == DepthTestSetting(false),
    {
        DepthTestSetting(false)
    }
}

impl CachedSettings for DepthTestSetting {
    open spec fn in_range(&self) -> bool {
        true
    }

    open spec fn commands(&self) -> Seq<Command> {
        if self.0 {
            seq![Command::Enable(Capability::DepthTest)]
        } else {
            seq![Command::Disable(Capability::DepthTest)]
        }
    }

    open spec fn cached(cache: AspectState) -> DepthTestSetting {
        DepthTestSetting(cache.depth_test)
    }

    open spec fn stored(&self, cache: AspectState) -> AspectState {
        AspectState { depth_test: self.0, ..cache }
    }

    fn is_in_range(&self) -> (supported: bool) {
        true
    }

    fn set(gl: &mut Gl, value: &DepthTestSetting) {
        if value.0 {
            gl.call(GlCall::Enable(Capability::DepthTest))
        } else {
            gl.call(GlCall::Disable(Capability::DepthTest))
        }
    }

    fn get_cached(cache: &SettingsCache) -> (value: DepthTestSetting) {
        cache.depth
    }

    fn set_cached(cache: &mut SettingsCache, value: &DepthTestSetting) {
        cache.depth = *value;
    }

    proof fn lemma_aspect(value: DepthTestSetting, cache: AspectState) {
        cache.lemma_after_one(value.commands()[0]);
    }
}

impl PartialEq for ActiveTextureSetting {
    fn eq(&self, other: &ActiveTextureSetting) -> (equal: bool) {
        self.0 == other.0
    }
}

impl PartialEqSpecImpl for ActiveTextureSetting {
    open spec fn obeys_eq_spec() -> bool {
        true
    }

    open spec fn eq_spec(&self, other: &ActiveTextureSetting) -> bool {
        self.0 == other.0
    }
}

impl Eq for ActiveTextureSetting {}

impl Default for ActiveTextureSetting {
    fn default() -> (setting: ActiveTextureSetting)
        ensures
            setting == ActiveTextureSetting(0),
    {
        ActiveTextureSetting(0)
    }
}

impl CachedSettings for ActiveTextureSetting {
    open spec fn in_range(&self) -> bool {
        self.0 < TEXTURES_COUNT
    }

    open spec fn commands(&self) -> Seq<Command> {
        seq![Command::ActiveTexture(self.0)]
    }

    open spec fn cached(cache: AspectState) -> ActiveTextureSetting {
        ActiveTextureSetting(cache.active_texture)
    }

    open spec fn stored(&self, cache: AspectState) -> AspectState {
        AspectState { active_texture: self.0, ..cache }
    }

    fn is_in_range(&self) -> (supported: bool) {
        self.0 < TEXTURES_COUNT
    }

    fn set(gl: &mut Gl, value: &ActiveTextureSetting) {
        gl.call(GlCall::ActiveTexture(value.0));
    }

    fn get_cached(cache: &SettingsCache) -> (value: ActiveTextureSetting) {
        cache.active_texture
    }

    fn set_cached(cache: &mut SettingsCache, value: &ActiveTextureSetting) {
        cache.active_texture = *value;
    }

    proof fn lemma_aspect(value: ActiveTextureSetting, cache: AspectState) {
        cache.lemma_after_one(value.commands()[0]);
    }
}

impl PartialEq for ArrayBufferSetting {
    fn eq(&self, other: &ArrayBufferSetting) -> (equal: bool) {
        match (self.0, other.0) {
            (Some(mine), Some(theirs)) => mine.data.handle == theirs.data.handle,
            (None, None) => true,
            _ => false,
        }
    }
}

impl PartialEqSpecImpl for ArrayBufferSetting {
    open spec fn obeys_eq_spec() -> bool {
        true
    }

    open spec fn eq_spec(&self, other: &ArrayBufferSetting) -> bool {
        buffer_handle(self.0) == buffer_handle(other.0)
    }
}

impl Eq for ArrayBufferSetting {}

impl Default for ArrayBufferSetting {
    fn default() -> (setting: ArrayBufferSetting)
        ensures
            setting == ArrayBufferSetting(None),
    {
        ArrayBufferSetting(None)
    }
}

impl CachedSettings for ArrayBufferSetting {
    open spec fn in_range(&self) -> bool {
        true
    }

    open spec fn commands(&self) -> Seq<Command> {
        seq![Command::BindBuffer(buffer_handle(self.0))]
    }

    open spec fn cached(cache: AspectState) -> ArrayBufferSetting {
        ArrayBufferSetting(
            match cache.array_buffer {
                Some(handle) => Some(ArrayBuffer { data: ArrayBufferData { handle } }),
                None => None,
            },
        )
    }

    open spec fn stored(&self, cache: AspectState) -> AspectState {
        AspectState { array_buffer: buffer_handle(self.0), ..cache }
    }

    fn is_in_range(&self) -> (supported: bool) {
        true
    }

    fn set(gl: &mut Gl, value: &ArrayBufferSetting) {
        let buffer = match value.0 {
            Some(buffer) => Some(buffer.handle()),
            None => None,
        };
        gl.call(GlCall::BindBuffer(buffer));
    }

    fn get_cached(cache: &SettingsCache) -> (value: ArrayBufferSetting) {
        cache.array_buffer
    }

    fn set_cached(cache: &mut SettingsCache, value: &ArrayBufferSetting) {
        cache.array_buffer = *value;
    }

    proof fn lemma_aspect(value: ArrayBufferSetting, cache: AspectState) {
        cache.lemma_after_one(value.commands()[0]);
    }
}

/// A description of the state wanted for a span of work: one aspect, or
/// several chained together.
pub trait Settings: Sized {
    /// What is kept from entering a scope until leaving it: what has to be
    /// put back.
    type Token;

    /// Whether the context supports every value asked for.
    spec fn valid(&self) -> bool;

    /// The state right after the scope was entered from the state `before`.
    spec fn entered(&self, before: GlState) -> GlState;

    /// What entering from the state `before` keeps for leaving.
    spec fn token(&self, before: GlState) -> Self::Token;

    /// The state right after the scope was left from the state `after`,
    /// given what entering kept.
    spec fn left(&self, token: Self::Token, after: GlState) -> GlState;

    /// Whether the context supports every value asked for.
    fn is_valid(&self) -> (valid: bool)
        ensures
            valid == self.valid(),
    ;

    /// Enters the described state: every aspect that differs from what is
    /// recorded is recorded and set on the context, first asked for first.
    /// What comes back has to be handed to [`Settings::leave`].
    fn enter(&self, gl: &mut Gl) -> (token: Self::Token)
        requires
            self.valid(),
            old(gl).wf(),
        ensures
            final(gl).wf(),
            final(gl)@ == self.entered(old(gl)@),
            token == self.token(old(gl)@),
    ;

    /// Leaves the described state: every aspect that entering changed is
    /// set back on the context and recorded, last entered first.
    fn leave(&self, gl: &mut Gl, token: Self::Token)
        requires
            self.valid(),
            old(gl).wf(),
        ensures
            final(gl).wf(),
            final(gl)@ == self.left(token, old(gl)@),
    ;

    /// What holds of every scope: entering keeps cache and context in
    /// agreement, and so does leaving; and leaving after work that kept what
    /// the cache records puts the cache back as it was before entering.
    proof fn lemma_scope(&self, before: GlState, after: GlState)
        requires
            self.valid(),
            before.wf(),
        ensures
            self.entered(before).wf(),
            after.wf() ==> self.left(self.token(before), after).wf(),
            after.cache == self.entered(before).cache ==> self.left(
                self.token(before),
                after,
            ).cache == before.cache,
    ;

    /// Runs `callback` in the described state: enters it, runs the work,
    /// and leaves it again. An aspect that the cache records with the value
    /// asked for costs no call, neither before the work nor after it.
    fn apply<R, F: FnOnce(&mut Gl) -> R>(&self, gl: &mut Gl, callback: F) -> (result: R)
        requires
            self.valid(),
            old(gl).wf(),
            forall|g: &mut Gl|
                g.wf() && g@ == self.entered(old(gl)@) ==> call_requires(callback, (g,)),
            forall|g: &mut Gl, r: R|
                g.wf() && call_ensures(callback, (g,), r) ==> final(g).wf() && final(g)@.cache
                    == g@.cache,
        ensures
            final(gl).wf(),
            final(gl)@.cache == old(gl)@.cache,
            exists|g: &mut Gl|
                {
                    &&& g@ == self.entered(old(gl)@)
                    &&& #[trigger] call_ensures(callback, (g,), result)
                    &&& final(gl)@ == self.left(self.token(old(gl)@), final(g)@)
                },
    {
        let token = self.enter(gl);
        let result = callback(gl);
        proof {
            self.lemma_scope(old(gl)@, gl@);
        }
        self.leave(gl, token);
        result
    }

    /// This setting, and inside it depth testing switched on or off.
    fn depth_test(self, value: bool) -> (composed: ComposedSetting<Self, DepthTestSetting>)
        ensures
            composed == ComposedSetting(self, DepthTestSetting(value)),
    {
        ComposedSetting(self, DepthTestSetting(value))
    }

    /// This setting, and inside it blending switched on or off.
    fn blend(self, value: bool) -> (composed: ComposedSetting<Self, BlendSetting>)
        ensures
            composed == ComposedSetting(self, BlendSetting(value)),
    {
        ComposedSetting(self, BlendSetting(value))
    }

    /// This setting, and inside it `texture` bound at the texture unit
    /// `index`.
    fn texture(self, index: u32, texture: Texture) -> (composed: ComposedSetting<
        Self,
        TextureSetting,
    >)
        ensures
            composed == ComposedSetting(self, (TextureSetting { index, texture: Some(texture) })),
    {
        ComposedSetting(self, TextureSetting { index: index, texture: Some(texture) })
    }

    /// This setting, and inside it `texture` sampled with `filter`.
    fn texture_filter(self, texture: Texture, filter: TextureFilter) -> (composed:
        ComposedSetting<Self, TextureFilterSetting>)
        ensures
            composed == ComposedSetting(self, (TextureFilterSetting { texture, filter })),
    {
        ComposedSetting(self, TextureFilterSetting { texture: texture, filter: filter })
    }

    /// This setting, and inside it `array_buffer` bound as the array buffer.
    fn array_buffer(self, array_buffer: ArrayBuffer) -> (composed: ComposedSetting<
        Self,
        ArrayBufferSetting,
    >)
        ensures
            composed == ComposedSetting(self, ArrayBufferSetting(Some(array_buffer))),
    {
        ComposedSetting(self, ArrayBufferSetting(Some(array_buffer)))
    }
}

/// Whether entering `value` changes anything: whether it differs from what
/// `cache` records for its aspect.
pub open spec fn differs<T: CachedSettings>(value: &T, cache: AspectState) -> bool {
    !value.eq_spec(&T::cached(cache))
}

impl<T: CachedSettings> Settings for T {
    /// The value that entering replaced, where it replaced one.
    type Token = Option<T>;

    open spec fn valid(&self) -> bool {
        self.in_range()
    }

    open spec fn entered(&self, before: GlState) -> GlState {
        if differs(self, before.cache) {
            GlState { cache: self.stored(before.cache), ..before.called(self.commands()) }
        } else {
            before
        }
    }

    open spec fn token(&self, before: GlState) -> Option<T> {
        if differs(self, before.cache) {
            Some(T::cached(before.cache))
        } else {
            None
        }
    }

    open spec fn left(&self, token: Option<T>, after: GlState) -> GlState {
        match token {
            Some(previous) => GlState {
                cache: previous.stored(after.cache),
                ..after.called(previous.commands())
            },
            None => after,
        }
    }

    fn is_valid(&self) -> (valid: bool) {
        self.is_in_range()
    }

    fn enter(&self, gl: &mut Gl) -> (token: Option<T>) {
        let old_value = Self::get_cached(gl.cache());
        proof {
            T::lemma_aspect(*self, gl@.cache);
            AspectState::initial().lemma_after_all_concat(gl@.calls, self.commands());
        }
        if self.eq(&old_value) {
            None
        } else {
            gl.store(self);
            Self::set(gl, self);
            Some(old_value)
        }
    }

    fn leave(&self, gl: &mut Gl, token: Option<T>) {
        match token {
            Some(old_value) => {
                proof {
                    T::lemma_aspect(old_value, gl@.cache);
                    AspectState::initial().lemma_after_all_concat(
                        gl@.calls,
                        old_value.commands(),
                    );
                }
                Self::set(gl, &old_value);
                gl.store(&old_value);
            },
            None => {},
        }
    }

    proof fn lemma_scope(&self, before: GlState, after: GlState) {
        T::lemma_aspect(*self, before.cache);
        AspectState::initial().lemma_after_all_concat(before.calls, self.commands());
        if after.wf() {
            let previous = T::cached(before.cache);
            T::lemma_aspect(previous, after.cache);
            AspectState::initial().lemma_after_all_concat(after.calls, previous.commands());
        }
    }
}

/// The setting that asks for nothing.
#[derive(Clone, Copy, Debug, Default)]
pub struct EmptySetting {}

impl PartialEq for EmptySetting {
    fn eq(&self, other: &EmptySetting) -> (equal: bool) {
        true
    }
}

impl PartialEqSpecImpl for EmptySetting {
    open spec fn obeys_eq_spec() -> bool {
        true
    }

    open spec fn eq_spec(&self, other: &EmptySetting) -> bool {
        true
    }
}

impl Eq for EmptySetting {}

impl Settings for EmptySetting {
    type Token = ();

    open spec fn valid(&self) -> bool {
        true
    }

    open spec fn entered(&self, before: GlState) -> GlState {
        before
    }

    open spec fn token(&self, before: GlState) -> () {
        ()
    }

    open spec fn left(&self, token: (), after: GlState) -> GlState {
        after
    }

    fn is_valid(&self) -> (valid: bool) {
        true
    }

    fn enter(&self, gl: &mut Gl) -> (token: ()) {
        ()
    }

    fn leave(&self, gl: &mut Gl, token: ()) {
    }

    proof fn lemma_scope(&self, before: GlState, after: GlState) {
    }
}

/// Two settings asked for together: the first is entered before the second
/// and left after it.
#[derive(Debug, Default)]
pub struct ComposedSetting<S1: Settings, S2: Settings>(pub S1, pub S2);

impl<S1: Settings + Copy, S2: Settings + Copy> Clone for ComposedSetting<S1, S2> {
    fn clone(&self) -> (copy: ComposedSetting<S1, S2>)
        ensures
            copy == *self,
    {
        ComposedSetting(self.0, self.1)
    }
}

impl<S1: Settings + Copy, S2: Settings + Copy> Copy for ComposedSetting<S1, S2> {

}

impl<S1: Settings + PartialEq, S2: Settings + PartialEq> PartialEq for ComposedSetting<S1, S2> {
    /// Two composed settings are equal when their parts are, each to each.
    fn eq(&self, other: &ComposedSetting<S1, S2>) -> (equal: bool) {
        self.0.eq(&other.0) && self.1.eq(&other.1)
    }
}

impl<S1: Settings + PartialEq, S2: Settings + PartialEq> PartialEqSpecImpl for ComposedSetting<S1, S2> {
    open spec fn obeys_eq_spec() -> bool {
        S1::obeys_eq_spec() && S2::obeys_eq_spec()
    }

    open spec fn eq_spec(&self, other: &ComposedSetting<S1, S2>) -> bool {
        self.0.eq_spec(&other.0) && self.1.eq_spec(&other.1)
    }
}

impl<S1: Settings + Eq, S2: Settings + Eq> Eq for ComposedSetting<S1, S2> {

}

impl<S1: Settings, S2: Settings> Settings for ComposedSetting<S1, S2> {
    type Token = (S1::Token, S2::Token);

    open spec fn valid(&self) -> bool {
        self.0.valid() && self.1.valid()
    }

    open spec fn entered(&self, before: GlState) -> GlState {
        self.1.entered(self.0.entered(before))
    }

    open spec fn token(&self, before: GlState) -> (S1::Token, S2::Token) {
        (self.0.token(before), self.1.token(self.0.entered(before)))
    }

    open spec fn left(&self, token: (S1::Token, S2::Token), after: GlState) -> GlState {
        self.0.left(token.0, self.1.left(token.1, after))
    }

    fn is_valid(&self) -> (valid: bool) {
        self.0.is_valid() && self.1.is_valid()
    }

    fn enter(&self, gl: &mut Gl) -> (token: (S1::Token, S2::Token)) {
        let first = self.0.enter(gl);
        let second = self.1.enter(gl);
        (first, second)
    }

    fn leave(&self, gl: &mut Gl, token: (S1::Token, S2::Token)) {
        let (first, second) = token;
        self.1.leave(gl, second);
        self.0.leave(gl, first);
    }

    proof fn lemma_scope(&self, before: GlState, after: GlState) {
        let between = self.0.entered(before);
        let inner_left = self.1.left(self.1.token(between), after);
        self.0.lemma_scope(before, inner_left);
        self.1.lemma_scope(between, after);
    }
}

/// The texture bound at one texture unit, if any.
#[derive(Clone, Copy, Debug)]
pub struct TextureSetting {
    pub index: u32,
    pub texture: Option<Texture>,
}

impl PartialEq for TextureSetting {
    /// Two bindings are equal when they are at the same unit and of the same
    /// texture object, or both of none.
    fn eq(&self, other: &TextureSetting) -> (equal: bool) {
        self.index == other.index && match (self.texture, other.texture) {
            (Some(mine), Some(theirs)) => mine.data.handle == theirs.data.handle,
            (None, None) => true,
            _ => false,
        }
    }
}

impl PartialEqSpecImpl for TextureSetting {
    open spec fn obeys_eq_spec() -> bool {
        true
    }

    open spec fn eq_spec(&self, other: &TextureSetting) -> bool {
        self.index == other.index && texture_handle(self.texture) == texture_handle(
            other.texture,
        )
    }
}

impl Eq for TextureSetting {}

impl Default for TextureSetting {
    fn default() -> (setting: TextureSetting)
        ensures
            setting == (TextureSetting { index: 0, texture: None }),
    {
        TextureSetting { index: 0, texture: None }
    }
}

impl TextureSetting {
    /// Whether entering this binding changes anything: whether the texture
    /// differs from the one that `cache` records at the unit.
    pub open spec fn differs(&self, cache: AspectState) -> bool {
        texture_handle(self.texture) != cache.textures[self.index as int]
    }

    /// The call that binds a texture at a unit, or unbinds there.
    pub open spec fn commands(index: u32, texture: Option<u64>) -> Seq<Command> {
        seq![Command::BindTexture { unit: index, texture }]
    }

    /// Binds `texture` at the unit `index`, on the context and in the cache.
    fn set_texture(gl: &mut Gl, index: u32, texture: Option<u64>)
        requires
            index < TEXTURES_COUNT,
            old(gl).wf(),
        ensures
            final(gl).wf(),
            final(gl)@ == (GlState {
                cache: old(gl)@.cache.with_texture(index, texture),
                ..old(gl)@.called(Self::commands(index, texture))
            }),
    {
        proof {
            let bind = Command::BindTexture { unit: index, texture };
            AspectState::initial().lemma_after_all_concat(gl@.calls, seq![bind]);
            gl@.cache.lemma_after_one(bind);
        }
        gl.call(GlCall::BindTexture { unit: index, texture: texture });
        gl.store_texture(index, texture);
    }
}

impl Settings for TextureSetting {
    /// The binding that entering replaced, where it replaced one.
    type Token = Option<Option<u64>>;

    open spec fn valid(&self) -> bool {
        self.index < TEXTURES_COUNT
    }

    open spec fn entered(&self, before: GlState) -> GlState {
        if self.differs(before.cache) {
            let handle = texture_handle(self.texture);
            GlState {
                cache: before.cache.with_texture(self.index, handle),
                ..before.called(Self::commands(self.index, handle))
            }
        } else {
            before
        }
    }

    open spec fn token(&self, before: GlState) -> Option<Option<u64>> {
        if self.differs(before.cache) {
            Some(before.cache.textures[self.index as int])
        } else {
            None
        }
    }

    open spec fn left(&self, token: Option<Option<u64>>, after: GlState) -> GlState {
        match token {
            Some(previous) => GlState {
                cache: after.cache.with_texture(self.index, previous),
                ..after.called(Self::commands(self.index, previous))
            },
            None => after,
        }
    }

    fn is_valid(&self) -> (valid: bool) {
        self.index < TEXTURES_COUNT
    }

    fn enter(&self, gl: &mut Gl) -> (token: Option<Option<u64>>) {
        let previous = gl.cache().texture(self.index);
        let wanted = match self.texture {
            Some(texture) => Some(texture.data.handle),
            None => None,
        };
        if wanted == previous {
            None
        } else {
            Self::set_texture(gl, self.index, wanted);
            Some(previous)
        }
    }

    fn leave(&self, gl: &mut Gl, token: Option<Option<u64>>) {
        match token {
            Some(previous) => {
                Self::set_texture(gl, self.index, previous);
            },
            None => {},
        }
    }

    proof fn lemma_scope(&self, before: GlState, after: GlState) {
        let handle = texture_handle(self.texture);
        let bind = Command::BindTexture { unit: self.index, texture: handle };
        AspectState::initial().lemma_after_all_concat(before.calls, seq![bind]);
        before.cache.lemma_after_one(bind);
        let previous = before.cache.textures[self.index as int];
        let back = Command::BindTexture { unit: self.index, texture: previous };
        AspectState::initial().lemma_after_all_concat(after.calls, seq![back]);
        after.cache.lemma_after_one(back);
        if after.cache == self.entered(before).cache {
            assert(after.cache.with_texture(self.index, previous).textures
                =~= before.cache.textures);
        }
    }
}

/// The filter with which one texture is sampled. What is recorded of it
/// belongs to the texture, not to the cache of the context's aspects.
#[derive(Clone, Copy, Debug)]
pub struct TextureFilterSetting {
    pub texture: Texture,
    pub filter: TextureFilter,
}

impl PartialEq for TextureFilterSetting {
    /// Two filter settings are equal when they give the same texture object
    /// the same filter.
    fn eq(&self, other: &TextureFilterSetting) -> (equal: bool) {
        self.texture.data.handle == other.texture.data.handle && self.filter == other.filter
    }
}

impl PartialEqSpecImpl for TextureFilterSetting {
    open spec fn obeys_eq_spec() -> bool {
        true
    }

    open spec fn eq_spec(&self, other: &TextureFilterSetting) -> bool {
        self.texture.data.handle == other.texture.data.handle && self.filter == other.filter
    }
}

impl Eq for TextureFilterSetting {}

impl Settings for TextureFilterSetting {
    /// The filter that the texture had when the scope was entered.
    type Token = TextureFilter;

    open spec fn valid(&self) -> bool {
        true
    }

    open spec fn entered(&self, before: GlState) -> GlState {
        self.texture.filtered(before, self.filter)
    }

    open spec fn token(&self, before: GlState) -> TextureFilter {
        before.filter_of(self.texture.data.handle)
    }

    open spec fn left(&self, token: TextureFilter, after: GlState) -> GlState {
        self.texture.filtered(after, token)
    }

    fn is_valid(&self) -> (valid: bool) {
        true
    }

    fn enter(&self, gl: &mut Gl) -> (token: TextureFilter) {
        let previous = self.texture.filter(gl);
        let current = self.filter;
        self.texture.set_filter(gl, current);
        previous
    }

    fn leave(&self, gl: &mut Gl, token: TextureFilter) {
        self.texture.set_filter(gl, token);
    }

    proof fn lemma_scope(&self, before: GlState, after: GlState) {
        self.texture.lemma_filtered(before, self.filter);
        if after.cache.wf() {
            self.texture.lemma_filtered(after, before.filter_of(self.texture.data.handle));
        }
    }
}

} // verus!
