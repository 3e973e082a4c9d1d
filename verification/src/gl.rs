use vstd::prelude::*;
use std::collections::HashMap;
use crate::call::{AspectState, Command, ContextState, GlCall};
use crate::settings::{CachedSettings, EmptySetting, Settings, SettingsCache};
use crate::texture::{TextureFilter, TEXTURES_COUNT};

verus! {

/// The calls made on the graphics context, in the order in which they were
/// made. The calls not yet handed over by [`Gl::take_calls`] are held as
/// values; of the calls handed over before, only the contracts keep track.
pub struct Context {
    pending: Vec<GlCall>,
    performed: Ghost<Seq<Command>>,
}

/// The calls of `calls`, each as contracts see it.
pub open spec fn commands_of(calls: Seq<GlCall>) -> Seq<Command> {
    Seq::new(calls.len(), |i: int| calls[i]@)
}

impl View for Context {
    type V = Seq<Command>;

    /// Every call made so far, oldest first.
    closed spec fn view(&self) -> Seq<Command> {
        self.performed@ + commands_of(self.pending@)
    }
}

impl Context {
    /// How many of the calls made were handed over for performing.
    pub closed spec fn taken(&self) -> nat {
        self.performed@.len()
    }

    /// The calls that wait to be handed over, oldest first.
    pub open spec fn pending(&self) -> Seq<Command> {
        self@.skip(self.taken() as int)
    }

    /// A context on which no call was made.
    pub fn new() -> (context: Context)
        ensures
            context@ == Seq::<Command>::empty(),
            context.taken() == 0,
    {
        Context { pending: Vec::new(), performed: Ghost(Seq::empty()) }
    }

    /// The calls that wait to be handed over, oldest first.
    pub fn calls(&self) -> (calls: &Vec<GlCall>)
        ensures
            commands_of(calls@) == self.pending(),
    {
        assert(self@.skip(self.taken() as int) =~= commands_of(self.pending@));
        &self.pending
    }

    /// Makes one more call.
    pub(crate) fn record(&mut self, call: GlCall)
        ensures
            final(self)@ == old(self)@.push(call@),
            final(self).taken() == old(self).taken(),
    {
        self.pending.push(call);
        assert(commands_of(self.pending@) =~= commands_of(old(self).pending@).push(call@));
        assert(self@ =~= old(self)@.push(call@));
    }

    /// Hands over the calls that wait, oldest first.
    pub(crate) fn take(&mut self) -> (calls: Vec<GlCall>)
        ensures
            commands_of(calls@) == old(self).pending(),
            final(self)@ == old(self)@,
            final(self).taken() == old(self)@.len(),
    {
        let mut calls: Vec<GlCall> = Vec::new();
        std::mem::swap(&mut calls, &mut self.pending);
        proof {
            self.performed@ = self.performed@ + commands_of(calls@);
        }
        assert(commands_of(self.pending@) =~= Seq::<Command>::empty());
        assert(self@ =~= old(self)@);
        assert(old(self)@.skip(old(self).taken() as int) =~= commands_of(calls@));
        calls
    }
}

/// All that contracts see of a [`Gl`].
#[verifier::ext_equal]
pub ghost struct GlState {
    /// What the cache records for each tracked aspect.
    pub cache: AspectState,
    /// The filter recorded for each texture whose filter was ever set.
    pub filters: Map<u64, TextureFilter>,
    /// Every call made on the context so far, oldest first.
    pub calls: Seq<Command>,
    /// How many of the calls were handed over for performing.
    pub taken: nat,
}

impl GlState {
    /// The state of a fresh [`Gl`].
    pub open spec fn initial() -> GlState {
        GlState {
            cache: AspectState::initial(),
            filters: Map::empty(),
            calls: Seq::empty(),
            taken: 0,
        }
    }

    /// The cache records, for every tracked aspect, what the context holds
    /// after the calls made so far.
    pub open spec fn wf(self) -> bool {
        &&& self.cache.wf()
        &&& self.cache == AspectState::initial().after_all(self.calls)
    }

    /// The filter of a texture: the one recorded for it, and the filter that
    /// a new texture is taken to have where none was recorded.
    pub open spec fn filter_of(self, texture: u64) -> TextureFilter {
        if self.filters.contains_key(texture) {
            self.filters[texture]
        } else {
            TextureFilter::Linear
        }
    }

    /// The calls that wait to be handed over, oldest first.
    pub open spec fn pending(self) -> Seq<Command> {
        self.calls.skip(self.taken as int)
    }

    /// What the context holds after the calls made so far.
    pub open spec fn context(self) -> ContextState {
        ContextState::initial().after_all(self.calls)
    }

    /// This state with `filter` recorded for a texture.
    pub open spec fn with_filter(self, texture: u64, filter: TextureFilter) -> GlState {
        GlState { filters: self.filters.insert(texture, filter), ..self }
    }

    /// This state after the calls `commands` were made.
    pub open spec fn called(self, commands: Seq<Command>) -> GlState {
        GlState { calls: self.calls + commands, ..self }
    }
}

impl GlState {
    /// Calls that leave every tracked aspect as it is keep cache and context
    /// in agreement.
    pub proof fn lemma_called(self, commands: Seq<Command>)
        requires
            self.wf(),
            self.cache.after_all(commands) == self.cache,
        ensures
            self.called(commands).wf(),
    {
        AspectState::initial().lemma_after_all_concat(self.calls, commands);
    }

    /// Where cache and context agree, the context holds for every tracked
    /// aspect what the cache records.
    pub proof fn lemma_context_aspects(self)
        requires
            self.wf(),
        ensures
            self.context().aspects == self.cache,
    {
        ContextState::initial().lemma_after_all_aspects(self.calls);
    }

    /// One more call acts on what the context held before it.
    pub proof fn lemma_context_called(self, command: Command)
        ensures
            self.called(seq![command]).context() == self.context().after(command),
    {
        assert(self.calls + seq![command] =~= self.calls.push(command));
        ContextState::initial().lemma_after_all_push(self.calls, command);
    }
}

/// Why a buffer or a texture could not be created.
#[derive(Clone, Copy, Debug, PartialEq, Eq, Structural)]
pub enum ResourceError {
    /// The context refused to allocate the object.
    CreationRefused,
}

/// A graphics context together with the cache of what it holds.
pub struct Gl {
    context: Context,
    settings_cache: SettingsCache,
    filters: HashMap<u64, TextureFilter>,
}

impl View for Gl {
    type V = GlState;

    closed spec fn view(&self) -> GlState {
        GlState {
            cache: self.settings_cache@,
            filters: self.filters@,
            calls: self.context@,
            taken: self.context.taken(),
        }
    }
}

impl Gl {
    /// Whether the cache and the context agree.
    pub open spec fn wf(&self) -> bool {
        self@.wf()
    }

    /// A fresh context with its cache: both capabilities off, unit 0 active,
    /// nothing bound, no call made.
    pub fn new() -> (gl: Gl)
        ensures
            gl@ == GlState::initial(),
            gl.wf(),
    {
        Gl {
            context: Context::new(),
            settings_cache: SettingsCache::default(),
            filters: HashMap::new(),
        }
    }

    /// The context, with the calls made on it.
    pub fn context(&self) -> (context: &Context)
        ensures
            context@ == self@.calls,
            context.taken() == self@.taken,
    {
        &self.context
    }

    /// The setting that asks for nothing, to chain aspects onto.
    pub fn settings() -> (settings: EmptySetting)
        ensures
            settings == (EmptySetting {  }),
    {
        EmptySetting {  }
    }

    /// Runs `callback` in the state that `settings` describes; see
    /// [`Settings::apply`].
    pub fn apply<S: Settings, R, F: FnOnce(&mut Gl) -> R>(
        &mut self,
        settings: S,
        callback: F,
    ) -> (result: R)
        requires
            settings.valid(),
            old(self).wf(),
            forall|g: &mut Gl|
                g.wf() && g@ == settings.entered(old(self)@) ==> call_requires(callback, (g,)),
            forall|g: &mut Gl, r: R|
                g.wf() && call_ensures(callback, (g,), r) ==> final(g).wf() && final(g)@.cache
                    == g@.cache,
        ensures
            final(self).wf(),
            final(self)@.cache == old(self)@.cache,
            exists|g: &mut Gl|
                {
                    &&& g@ == settings.entered(old(self)@)
                    &&& #[trigger] call_ensures(callback, (g,), result)
                    &&& final(self)@ == settings.left(settings.token(old(self)@), final(g)@)
                },
    {
        settings.apply(self, callback)
    }

    /// Hands over the calls not handed over before, oldest first. They stay
    /// part of the calls made.
    pub fn take_calls(&mut self) -> (calls: Vec<GlCall>)
        ensures
            commands_of(calls@) == old(self)@.pending(),
            final(self)@ == (GlState { taken: old(self)@.calls.len(), ..old(self)@ }),
    {
        self.context.take()
    }

    /// The cache, to read from.
    pub(crate) fn cache(&self) -> (cache: &SettingsCache)
        ensures
            cache@ == self@.cache,
    {
        &self.settings_cache
    }

    /// Writes the value of one aspect to the cache.
    pub(crate) fn store<T: CachedSettings>(&mut self, value: &T)
        ensures
            final(self)@ == (GlState { cache: value.stored(old(self)@.cache), ..old(self)@ }),
    {
        T::set_cached(&mut self.settings_cache, value);
    }

    /// Writes the texture bound at a unit to the cache.
    pub(crate) fn store_texture(&mut self, unit: u32, texture: Option<u64>)
        requires
            unit < TEXTURES_COUNT,
        ensures
            final(self)@ == (GlState {
                cache: old(self)@.cache.with_texture(unit, texture),
                ..old(self)@
            }),
    {
        self.settings_cache.set_texture(unit, texture);
    }

    /// Makes one call on the context.
    pub(crate) fn call(&mut self, call: GlCall)
        ensures
            final(self)@ == old(self)@.called(seq![call@]),
    {
        self.context.record(call);
        assert(self.context@ =~= old(self).context@ + seq![call@]);
    }

    /// The filter recorded for a texture.
    pub(crate) fn filter_of(&self, texture: u64) -> (filter: TextureFilter)
        ensures
            filter == self@.filter_of(texture),
    {
        match self.filters.get(&texture) {
            Some(filter) => *filter,
            None => TextureFilter::Linear,
        }
    }

    /// Records the filter of a texture.
    pub(crate) fn record_filter(&mut self, texture: u64, filter: TextureFilter)
        ensures
            final(self)@ == old(self)@.with_filter(texture, filter),
    {
        self.filters.insert(texture, filter);
    }
}

} // verus!
