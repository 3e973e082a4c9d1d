use vstd::prelude::*;
use vstd::std_specs::cmp::PartialEqSpec;
use crate::call::{AspectState, Command};
use crate::data_buffer::ArrayBuffer;
use crate::gl::GlState;
use crate::settings::{differs, ArrayBufferSetting, CachedSettings, ComposedSetting, Settings};
use crate::settings::{TextureFilterSetting, TextureSetting};
use crate::texture::{texture_handle, Texture};

verus! {

/// An aspect asked for with the value that the cache records for it costs
/// no call and changes nothing, neither on entry nor on exit.
pub proof fn lemma_recorded_value_costs_nothing<T: CachedSettings>(
    value: T,
    before: GlState,
    after: GlState,
)
    requires
        !differs(&value, before.cache),
    ensures
        value.entered(before) == before,
        value.left(value.token(before), after) == after,
{
}

/// A texture asked for at the unit where the cache records it bound costs no
/// call and changes nothing, neither on entry nor on exit.
pub proof fn lemma_bound_texture_costs_nothing(
    setting: TextureSetting,
    before: GlState,
    after: GlState,
)
    requires
        texture_handle(setting.texture) == before.cache.textures[setting.index as int],
    ensures
        setting.entered(before) == before,
        setting.left(setting.token(before), after) == after,
{
}

/// A filter asked for on a texture that has it costs no call and changes
/// nothing on entry, nor on exit where the work left the filter alone.
pub proof fn lemma_present_filter_costs_nothing(
    setting: TextureFilterSetting,
    before: GlState,
    after: GlState,
)
    requires
        before.filter_of(setting.texture.data.handle) == setting.filter,
        after.filter_of(setting.texture.data.handle) == setting.filter,
    ensures
        setting.entered(before) == before,
        setting.left(setting.token(before), after) == after,
{
}

/// Whatever is asked for, and whatever the work does beyond keeping what
/// the cache records: after the scope the cache is what it was before it,
/// and it agrees with the context wherever it did before and the work kept
/// the two in agreement.
pub proof fn lemma_scope_restores<S: Settings>(setting: S, before: GlState, after: GlState)
    requires
        setting.valid(),
        before.wf(),
        after.wf(),
        after.cache == setting.entered(before).cache,
    ensures
        setting.entered(before).wf(),
        setting.left(setting.token(before), after).wf(),
        setting.left(setting.token(before), after).cache == before.cache,
{
    setting.lemma_scope(before, after);
}

/// The calls of two aspects asked for together come in nested order: the
/// first aspect, the second, the work, the second put back, the first put
/// back. An aspect that the cache records with the value asked for
/// contributes no call on either side.
pub proof fn lemma_composition_order<A: CachedSettings, B: CachedSettings>(
    first: A,
    second: B,
    before: GlState,
    work: Seq<Command>,
)
    ensures
        ({
            let composed = ComposedSetting(first, second);
            let between = first.entered(before);
            let after = composed.left(
                composed.token(before),
                composed.entered(before).called(work),
            );
            let first_back = A::cached(before.cache).commands();
            let second_back = B::cached(between.cache).commands();
            &&& differs(&first, before.cache) && differs(&second, between.cache) ==> after.calls
                == before.calls + first.commands() + second.commands() + work + second_back
                + first_back
            &&& !differs(&first, before.cache) && differs(&second, between.cache) ==> after.calls
                == before.calls + second.commands() + work + second_back
            &&& differs(&first, before.cache) && !differs(&second, between.cache) ==> after.calls
                == before.calls + first.commands() + work + first_back
            &&& !differs(&first, before.cache) && !differs(&second, between.cache) ==> after.calls
                == before.calls + work
        }),
{
}

/// An aspect overridden inside a scope that overrides it already: leaving
/// the inner scope puts cache and context back to the outer value, and
/// leaving the outer scope afterwards puts both back to what they were
/// before it.
pub proof fn lemma_nested_override<T: CachedSettings>(outer: T, inner: T, before: GlState)
    requires
        outer.in_range(),
        inner.in_range(),
        before.wf(),
    ensures
        ({
            let outside = outer.entered(before);
            let inside = inner.entered(outside);
            let back_outside = inner.left(inner.token(outside), inside);
            let back = outer.left(outer.token(before), back_outside);
            &&& back_outside.cache == outside.cache
            &&& outer.eq_spec(&T::cached(back_outside.cache))
            &&& AspectState::initial().after_all(back_outside.calls) == back_outside.cache
            &&& back.cache == before.cache
            &&& AspectState::initial().after_all(back.calls) == back.cache
        }),
{
    let outside = outer.entered(before);
    let inside = inner.entered(outside);
    outer.lemma_scope(before, outside);
    inner.lemma_scope(outside, inside);
    let back_outside = inner.left(inner.token(outside), inside);
    outer.lemma_scope(before, back_outside);
    T::lemma_aspect(outer, before.cache);
}

/// Two buffer values that stand for the same buffer object are equal as
/// settings, and where one is recorded as bound, asking for the other costs
/// no call.
pub proof fn lemma_same_buffer_is_bound(first: ArrayBuffer, second: ArrayBuffer, state: GlState)
    requires
        first.data.handle == second.data.handle,
    ensures
        ArrayBufferSetting(Some(first)).eq_spec(&ArrayBufferSetting(Some(second))),
        state.cache.array_buffer == Some(first.data.handle) ==> ArrayBufferSetting(
            Some(second),
        ).entered(state) == state,
{
}

/// Two texture values that stand for the same texture object are equal, and
/// where one is recorded as bound at a unit, asking for the other there
/// costs no call.
pub proof fn lemma_same_texture_is_bound(
    first: Texture,
    second: Texture,
    index: u32,
    state: GlState,
)
    requires
        first.data.handle == second.data.handle,
    ensures
        first.eq_spec(&second),
        state.cache.textures[index as int] == Some(first.data.handle) ==> (TextureSetting {
            index,
            texture: Some(second),
        }).entered(state) == state,
{
}

} // verus!
