use scoped_gl::settings::{
    ActiveTextureSetting, BlendSetting, ComposedSetting, DepthTestSetting, EmptySetting,
    TextureSetting,
};
use scoped_gl::{
    ArrayBuffer, BufferUsage, Capability, FilterParameter, Gl, GlCall, Settings, Texture,
    TextureContent, TextureFilter, TextureFormat, TextureType,
};

fn texture(gl: &mut Gl, handle: u64) -> Texture {
    let made = Texture::new(
        gl,
        Some(handle),
        2,
        2,
        TextureType::Byte,
        TextureFormat::Rgba,
        TextureContent::Empty,
    )
    .unwrap();
    gl.take_calls();
    made
}

fn buffer(gl: &mut Gl, handle: u64) -> ArrayBuffer {
    let made = ArrayBuffer::new(gl, Some(handle), &[], BufferUsage::Static).unwrap();
    gl.take_calls();
    made
}

#[test]
fn fresh_context_has_made_no_call() {
    let gl = Gl::new();
    assert!(gl.context().calls().is_empty());
}

#[test]
fn empty_setting_only_runs_the_work() {
    let mut gl = Gl::new();
    let result = gl.apply(Gl::settings(), |_| 41 + 1);
    assert_eq!(result, 42);
    assert!(gl.context().calls().is_empty());
}

#[test]
fn recorded_value_costs_no_call() {
    let mut gl = Gl::new();
    let mut ran = false;
    gl.apply(
        Gl::settings().blend(false).depth_test(false),
        |g| {
            ran = true;
            assert!(g.context().calls().is_empty());
        },
    );
    assert!(ran);
    assert!(gl.context().calls().is_empty());
    ActiveTextureSetting(0).apply(&mut gl, |_| ());
    assert!(gl.context().calls().is_empty());
}

#[test]
fn changed_value_is_set_and_put_back() {
    let mut gl = Gl::new();
    let seen = gl.apply(Gl::settings().blend(true), |g| g.context().calls().len());
    assert_eq!(seen, 1);
    assert_eq!(
        gl.context().calls(),
        &vec![GlCall::Enable(Capability::Blend), GlCall::Disable(Capability::Blend)]
    );
}

#[test]
fn cache_is_restored_after_the_scope() {
    let mut gl = Gl::new();
    gl.apply(Gl::settings().blend(true).depth_test(true), |_| ());
    gl.take_calls();
    // The cache says "off" for both again, so asking for "off" costs nothing
    // and asking for "on" costs a call.
    gl.apply(Gl::settings().blend(false).depth_test(false), |_| ());
    assert!(gl.context().calls().is_empty());
    gl.apply(Gl::settings().blend(true), |_| ());
    assert_eq!(gl.context().calls().len(), 2);
}

#[test]
fn composed_settings_nest_in_order() {
    let mut gl = Gl::new();
    gl.apply(
        Gl::settings().blend(true).depth_test(true),
        |g| g.apply(Gl::settings().active_texture_for_test(), |_| ()),
    );
    assert_eq!(
        gl.context().calls(),
        &vec![
            GlCall::Enable(Capability::Blend),
            GlCall::Enable(Capability::DepthTest),
            GlCall::ActiveTexture(3),
            GlCall::ActiveTexture(0),
            GlCall::Disable(Capability::DepthTest),
            GlCall::Disable(Capability::Blend),
        ]
    );
}

trait ForTest: Settings {
    fn active_texture_for_test(self) -> ComposedSetting<Self, ActiveTextureSetting> {
        ComposedSetting(self, ActiveTextureSetting(3))
    }
}

impl ForTest for EmptySetting {}

#[test]
fn only_the_differing_aspect_makes_calls() {
    let mut gl = Gl::new();
    gl.apply(Gl::settings().blend(false).depth_test(true), |_| ());
    assert_eq!(
        gl.context().calls(),
        &vec![GlCall::Enable(Capability::DepthTest), GlCall::Disable(Capability::DepthTest)]
    );
}

#[test]
fn nested_override_unwinds_to_each_outer_value() {
    let mut gl = Gl::new();
    gl.apply(Gl::settings().blend(true), |_| ());
    gl.take_calls();
    // Inside a scope with blending on, an outer scope switches it off and an
    // inner one on again.
    BlendSetting(true).apply(&mut gl, |g| {
        g.take_calls();
        g.apply(Gl::settings().blend(false), |g| {
            g.apply(Gl::settings().blend(true), |_| ());
            // Back in the outer scope: the cache says "off" again.
            g.apply(Gl::settings().blend(false), |_| ());
        });
        assert_eq!(
            g.context().calls(),
            &vec![
                GlCall::Disable(Capability::Blend),
                GlCall::Enable(Capability::Blend),
                GlCall::Disable(Capability::Blend),
                GlCall::Enable(Capability::Blend),
            ]
        );
    });
    assert_eq!(gl.context().calls().last(), Some(&GlCall::Disable(Capability::Blend)));
}

#[test]
fn same_aspect_twice_in_one_setting() {
    let mut gl = Gl::new();
    gl.apply(Gl::settings().blend(true).blend(false), |_| ());
    assert_eq!(
        gl.context().calls(),
        &vec![
            GlCall::Enable(Capability::Blend),
            GlCall::Disable(Capability::Blend),
            GlCall::Enable(Capability::Blend),
            GlCall::Disable(Capability::Blend),
        ]
    );
}

#[test]
fn copies_of_a_buffer_are_the_same_buffer() {
    let mut gl = Gl::new();
    let first = buffer(&mut gl, 5);
    let second = first.clone();
    assert_eq!(first, second);
    assert_eq!(Gl::settings().array_buffer(first), Gl::settings().array_buffer(second));
    gl.apply(Gl::settings().array_buffer(first), |g| {
        g.take_calls();
        g.apply(Gl::settings().array_buffer(second), |_| ());
        assert!(g.context().calls().is_empty());
    });
}

#[test]
fn copies_of_a_texture_are_the_same_texture() {
    let mut gl = Gl::new();
    let first = texture(&mut gl, 9);
    let second = first.clone();
    assert_eq!(first, second);
    gl.apply(Gl::settings().texture(4, first), |g| {
        g.take_calls();
        g.apply(Gl::settings().texture(4, second), |_| ());
        assert!(g.context().calls().is_empty());
        g.apply(Gl::settings().texture(5, second), |_| ());
        assert_eq!(g.context().calls().len(), 2);
    });
}

#[test]
fn textures_differ_by_handle_only() {
    let mut gl = Gl::new();
    let first = texture(&mut gl, 1);
    let other = texture(&mut gl, 2);
    assert_ne!(first, other);
    assert_eq!(first.handle_for_test(), 1);
}

trait HandleForTest {
    fn handle_for_test(&self) -> u64;
}

impl HandleForTest for Texture {
    fn handle_for_test(&self) -> u64 {
        self.data.handle
    }
}

#[test]
fn texture_binding_is_put_back() {
    let mut gl = Gl::new();
    let first = texture(&mut gl, 1);
    let second = texture(&mut gl, 2);
    gl.apply(Gl::settings().texture(0, first), |g| {
        g.apply(Gl::settings().texture(0, second), |_| ());
    });
    assert_eq!(
        gl.context().calls(),
        &vec![
            GlCall::BindTexture { unit: 0, texture: Some(1) },
            GlCall::BindTexture { unit: 0, texture: Some(2) },
            GlCall::BindTexture { unit: 0, texture: Some(1) },
            GlCall::BindTexture { unit: 0, texture: None },
        ]
    );
}

#[test]
fn last_texture_unit_is_supported() {
    let mut gl = Gl::new();
    let made = texture(&mut gl, 1);
    let setting = TextureSetting { index: 15, texture: Some(made) };
    assert!(setting.is_valid());
    setting.apply(&mut gl, |_| ());
    assert_eq!(
        gl.context().calls(),
        &vec![
            GlCall::BindTexture { unit: 15, texture: Some(1) },
            GlCall::BindTexture { unit: 15, texture: None },
        ]
    );
}

#[test]
fn unit_out_of_range_is_not_valid() {
    let mut gl = Gl::new();
    let made = texture(&mut gl, 1);
    assert!(!TextureSetting { index: 16, texture: Some(made) }.is_valid());
    assert!(!Gl::settings().blend(true).texture(16, made).is_valid());
    assert!(Gl::settings().blend(true).texture(15, made).is_valid());
    assert!(!ActiveTextureSetting(16).is_valid());
    assert!(ActiveTextureSetting(15).is_valid());
    assert!(DepthTestSetting(true).is_valid());
}

#[test]
fn filter_change_scenario() {
    let mut gl = Gl::new();
    let made = texture(&mut gl, 7);
    assert_eq!(made.filter(&gl), TextureFilter::Linear);

    made.set_filter(&mut gl, TextureFilter::Linear);
    assert!(gl.context().calls().is_empty());

    made.set_filter(&mut gl, TextureFilter::Nearest);
    assert_eq!(
        gl.context().calls(),
        &vec![
            GlCall::BindTexture { unit: 0, texture: Some(7) },
            GlCall::TexParameter {
                parameter: FilterParameter::Magnification,
                filter: TextureFilter::Nearest,
            },
            GlCall::TexParameter {
                parameter: FilterParameter::Minification,
                filter: TextureFilter::Nearest,
            },
            GlCall::BindTexture { unit: 0, texture: None },
        ]
    );
    assert_eq!(made.filter(&gl), TextureFilter::Nearest);
    gl.take_calls();

    made.set_filter(&mut gl, TextureFilter::Nearest);
    assert!(gl.context().calls().is_empty());
    assert_eq!(made.filter(&gl), TextureFilter::Nearest);
}

#[test]
fn filter_change_on_the_bound_texture_needs_no_bind() {
    let mut gl = Gl::new();
    let made = texture(&mut gl, 7);
    gl.apply(Gl::settings().texture(0, made), |g| {
        g.take_calls();
        made.set_filter(g, TextureFilter::Nearest);
        assert_eq!(g.context().calls().len(), 2);
    });
}

#[test]
fn filter_change_puts_back_what_was_bound() {
    let mut gl = Gl::new();
    let made = texture(&mut gl, 7);
    let other = texture(&mut gl, 8);
    gl.apply(Gl::settings().texture(0, other), |g| {
        g.take_calls();
        made.set_filter(g, TextureFilter::Nearest);
        assert_eq!(
            g.context().calls().first(),
            Some(&GlCall::BindTexture { unit: 0, texture: Some(7) })
        );
        assert_eq!(
            g.context().calls().last(),
            Some(&GlCall::BindTexture { unit: 0, texture: Some(8) })
        );
        assert_eq!(g.context().calls().len(), 4);
    });
}

#[test]
fn filter_is_shared_by_copies() {
    let mut gl = Gl::new();
    let made = texture(&mut gl, 7);
    let copy = made.clone();
    made.set_filter(&mut gl, TextureFilter::Nearest);
    assert_eq!(copy.filter(&gl), TextureFilter::Nearest);
}

#[test]
fn filter_scope_is_put_back() {
    let mut gl = Gl::new();
    let made = texture(&mut gl, 7);
    let inside = gl.apply(
        Gl::settings().texture_filter(made, TextureFilter::Nearest),
        |g| made.filter(g),
    );
    assert_eq!(inside, TextureFilter::Nearest);
    assert_eq!(made.filter(&gl), TextureFilter::Linear);
    assert_eq!(gl.context().calls().len(), 8);
}

#[test]
fn filter_scope_with_the_present_filter_costs_nothing() {
    let mut gl = Gl::new();
    let made = texture(&mut gl, 7);
    gl.apply(Gl::settings().texture_filter(made, TextureFilter::Linear), |_| ());
    assert!(gl.context().calls().is_empty());
}

#[test]
fn buffer_write_binding_scenario() {
    let mut gl = Gl::new();
    let ambient = buffer(&mut gl, 1);
    let written = buffer(&mut gl, 2);
    gl.apply(Gl::settings().array_buffer(ambient), |g| {
        g.take_calls();
        written.write(g, &[1, 2, 3], BufferUsage::Dynamic);
        assert_eq!(
            g.context().calls(),
            &vec![
                GlCall::BindBuffer(Some(2)),
                GlCall::BufferData { usage: BufferUsage::Dynamic, bytes: vec![1, 2, 3] },
                GlCall::BindBuffer(Some(1)),
            ]
        );
        g.take_calls();
        // The cache points at the ambient buffer again.
        g.apply(Gl::settings().array_buffer(ambient), |_| ());
        assert!(g.context().calls().is_empty());
    });
}

#[test]
fn buffer_write_while_bound_only_uploads() {
    let mut gl = Gl::new();
    let made = buffer(&mut gl, 3);
    gl.apply(Gl::settings().array_buffer(made), |g| {
        g.take_calls();
        made.write(g, &[9], BufferUsage::Stream);
        assert_eq!(
            g.context().calls(),
            &vec![GlCall::BufferData { usage: BufferUsage::Stream, bytes: vec![9] }]
        );
    });
}

#[test]
fn buffer_write_with_nothing_bound_unbinds_afterwards() {
    let mut gl = Gl::new();
    let made = buffer(&mut gl, 3);
    made.write(&mut gl, &[], BufferUsage::Static);
    assert_eq!(
        gl.context().calls(),
        &vec![
            GlCall::BindBuffer(Some(3)),
            GlCall::BufferData { usage: BufferUsage::Static, bytes: vec![] },
            GlCall::BindBuffer(None),
        ]
    );
}

#[test]
fn new_buffer_is_written_at_once() {
    let mut gl = Gl::new();
    let made = ArrayBuffer::new(&mut gl, Some(11), &[4, 5], BufferUsage::Static).unwrap();
    assert_eq!(made.handle(), 11);
    assert_eq!(
        gl.context().calls(),
        &vec![
            GlCall::BindBuffer(Some(11)),
            GlCall::BufferData { usage: BufferUsage::Static, bytes: vec![4, 5] },
            GlCall::BindBuffer(None),
        ]
    );
}

#[test]
fn new_texture_defines_its_image() {
    let mut gl = Gl::new();
    let made = Texture::new(
        &mut gl,
        Some(21),
        4,
        8,
        TextureType::Float,
        TextureFormat::Luminance,
        TextureContent::Bytes(vec![1, 2]),
    )
    .unwrap();
    assert_eq!(made.width(), 4);
    assert_eq!(made.height(), 8);
    assert_eq!(made.size(), (4, 8));
    assert_eq!(made.data_type(), TextureType::Float);
    assert_eq!(made.format(), TextureFormat::Luminance);
    assert_eq!(made.filter(&gl), TextureFilter::Linear);
    assert_eq!(
        gl.context().calls(),
        &vec![
            GlCall::BindTexture { unit: 0, texture: Some(21) },
            GlCall::TexImage {
                width: 4,
                height: 8,
                format: TextureFormat::Luminance,
                data_type: TextureType::Float,
                content: TextureContent::Bytes(vec![1, 2]),
            },
            GlCall::BindTexture { unit: 0, texture: None },
        ]
    );
}

#[test]
fn new_texture_from_an_image() {
    let mut gl = Gl::new();
    Texture::new(
        &mut gl,
        Some(1),
        1,
        1,
        TextureType::Byte,
        TextureFormat::Rgb,
        TextureContent::Image(77),
    )
    .unwrap();
    assert_eq!(
        gl.context().calls()[1],
        GlCall::TexImage {
            width: 1,
            height: 1,
            format: TextureFormat::Rgb,
            data_type: TextureType::Byte,
            content: TextureContent::Image(77),
        }
    );
}

#[test]
fn new_texture_starts_with_the_default_filter_again() {
    let mut gl = Gl::new();
    let made = texture(&mut gl, 7);
    made.set_filter(&mut gl, TextureFilter::Nearest);
    let again = texture(&mut gl, 7);
    assert_eq!(again.filter(&gl), TextureFilter::Linear);
}

#[test]
fn refused_creation_is_reported_and_does_nothing() {
    let mut gl = Gl::new();
    let refused_texture = Texture::new(
        &mut gl,
        None,
        1,
        1,
        TextureType::Byte,
        TextureFormat::Rgba,
        TextureContent::Empty,
    );
    assert_eq!(refused_texture.err(), Some(scoped_gl::ResourceError::CreationRefused));
    let refused_buffer = ArrayBuffer::new(&mut gl, None, &[1], BufferUsage::Static);
    assert_eq!(refused_buffer.err(), Some(scoped_gl::ResourceError::CreationRefused));
    assert!(gl.context().calls().is_empty());
}

#[test]
fn taken_calls_are_handed_over_once() {
    let mut gl = Gl::new();
    gl.apply(Gl::settings().blend(true), |g| {
        assert_eq!(g.take_calls(), vec![GlCall::Enable(Capability::Blend)]);
        assert!(g.take_calls().is_empty());
    });
    assert_eq!(gl.take_calls(), vec![GlCall::Disable(Capability::Blend)]);
    assert!(gl.context().calls().is_empty());
}

#[test]
fn work_result_is_returned() {
    let mut gl = Gl::new();
    let made = texture(&mut gl, 1);
    let result = gl.apply(
        Gl::settings().depth_test(true).texture(2, made).blend(true),
        |_| String::from("done"),
    );
    assert_eq!(result, "done");
    assert_eq!(gl.context().calls().len(), 6);
}

#[test]
fn enter_and_leave_are_the_two_halves_of_a_scope() {
    let mut gl = Gl::new();
    let setting = Gl::settings().blend(true).depth_test(true);
    let token = setting.enter(&mut gl);
    assert_eq!(
        gl.take_calls(),
        vec![GlCall::Enable(Capability::Blend), GlCall::Enable(Capability::DepthTest)]
    );
    setting.leave(&mut gl, token);
    assert_eq!(
        gl.take_calls(),
        vec![GlCall::Disable(Capability::DepthTest), GlCall::Disable(Capability::Blend)]
    );
}

#[test]
fn entering_keeps_what_has_to_be_put_back() {
    let mut gl = Gl::new();
    assert_eq!(BlendSetting(false).enter(&mut gl), None);
    assert_eq!(BlendSetting(true).enter(&mut gl), Some(BlendSetting(false)));
    assert_eq!(ActiveTextureSetting(2).enter(&mut gl), Some(ActiveTextureSetting(0)));
    let made = texture(&mut gl, 6);
    let binding = TextureSetting { index: 1, texture: Some(made) };
    assert_eq!(binding.enter(&mut gl), Some(None));
    assert_eq!(binding.enter(&mut gl), None);
    let other = TextureSetting { index: 1, texture: None };
    assert_eq!(other.enter(&mut gl), Some(Some(6)));
}

#[test]
fn leaving_with_nothing_to_put_back_costs_nothing() {
    let mut gl = Gl::new();
    let token = DepthTestSetting(false).enter(&mut gl);
    DepthTestSetting(false).leave(&mut gl, token);
    EmptySetting {}.leave(&mut gl, ());
    assert!(gl.context().calls().is_empty());
}

#[test]
fn settings_are_equal_by_payload() {
    let mut gl = Gl::new();
    let first = texture(&mut gl, 1);
    let other = texture(&mut gl, 2);
    assert_eq!(Gl::settings().blend(true), Gl::settings().blend(true));
    assert_ne!(Gl::settings().blend(true), Gl::settings().blend(false));
    assert_eq!(Gl::settings().texture(3, first), Gl::settings().texture(3, first.clone()));
    assert_ne!(Gl::settings().texture(3, first), Gl::settings().texture(4, first));
    assert_ne!(Gl::settings().texture(3, first), Gl::settings().texture(3, other));
    assert_eq!(
        Gl::settings().texture_filter(first, TextureFilter::Nearest),
        Gl::settings().texture_filter(first, TextureFilter::Nearest)
    );
    assert_ne!(
        Gl::settings().texture_filter(first, TextureFilter::Nearest),
        Gl::settings().texture_filter(first, TextureFilter::Linear)
    );
    assert_eq!(Gl::settings().blend(true).clone(), Gl::settings().blend(true));
}
