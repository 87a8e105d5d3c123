use posh::gl::raw::context::{max_level, BindCommand, Bindings, Caps, DepthLocation};
use posh::gl::raw::error::FramebufferError;
use posh::gl::raw::framebuffer::{Attachment, Framebuffer, TextureInfo};
use posh::gl::raw::small_vec::AttachmentVec;
use posh::gl::raw::image::ImageInternalFormat;

fn caps() -> Caps {
    Caps {
        max_texture_size: 1024,
        max_color_attachments: 2,
        max_draw_buffers: 2,
        disjoint_timer_query_webgl2: false,
    }
}

fn color(id: u32, level: u32) -> Attachment {
    Attachment::Texture2d {
        texture: TextureInfo {
            id,
            size: [16, 8],
            internal_format: ImageInternalFormat::RgbaU8,
        },
        level,
    }
}

fn depth(id: u32) -> Attachment {
    Attachment::Texture2d {
        texture: TextureInfo {
            id,
            size: [32, 4],
            internal_format: ImageInternalFormat::DepthF32,
        },
        level: 0,
    }
}

#[test]
fn max_level_is_floor_log2() {
    assert_eq!(max_level(0), 0);
    assert_eq!(max_level(1), 0);
    assert_eq!(max_level(2), 1);
    assert_eq!(max_level(1023), 9);
    assert_eq!(max_level(1024), 10);
    assert_eq!(max_level(u32::MAX), 31);
}

#[test]
fn bind_program_twice_issues_one_command() {
    let mut b = Bindings::new();
    let mut cmds = Vec::new();
    b.bind_program(Some(3), &mut cmds);
    b.bind_program(Some(3), &mut cmds);
    assert_eq!(cmds, vec![BindCommand::UseProgram(Some(3))]);
    assert_eq!(b.bound_program_id, Some(3));
}

#[test]
fn unbind_program_only_when_bound() {
    let mut b = Bindings::new();
    let mut cmds = Vec::new();
    b.bind_program(Some(3), &mut cmds);
    b.unbind_program_if_bound(4, &mut cmds);
    assert_eq!(b.bound_program_id, Some(3));
    b.unbind_program_if_bound(3, &mut cmds);
    assert_eq!(b.bound_program_id, None);
    assert_eq!(
        cmds,
        vec![BindCommand::UseProgram(Some(3)), BindCommand::UseProgram(None)]
    );
}

#[test]
fn bind_texture_pads_units_and_skips_repeats() {
    let mut b = Bindings::new();
    let mut cmds = Vec::new();
    b.bind_texture_2d(2, Some(7), &mut cmds);
    assert_eq!(b.bound_texture_2d_ids, vec![None, None, Some(7)]);
    b.bind_texture_2d(2, Some(7), &mut cmds);
    b.bind_texture_2d(0, None, &mut cmds);
    assert_eq!(
        cmds,
        vec![BindCommand::BindTexture2d { unit: 2, texture: Some(7) }]
    );
}

#[test]
fn unbind_buffer_clears_every_location() {
    let mut b = Bindings::new();
    let mut cmds = Vec::new();
    b.bind_uniform_buffer(0, Some(5), &mut cmds);
    b.bind_uniform_buffer(1, Some(6), &mut cmds);
    b.bind_uniform_buffer(3, Some(5), &mut cmds);
    cmds.clear();
    b.unbind_buffer_if_bound(5, &mut cmds);
    assert_eq!(b.bound_uniform_buffer_ids, vec![None, Some(6), None, None]);
    assert_eq!(
        cmds,
        vec![
            BindCommand::BindUniformBuffer { location: 0, buffer: None },
            BindCommand::BindUniformBuffer { location: 3, buffer: None },
        ]
    );
}

#[test]
fn bind_default_framebuffer() {
    let mut b = Bindings::new();
    let mut cmds = Vec::new();
    assert!(b.bind_framebuffer(&caps(), &Framebuffer::Default, &mut cmds).is_ok());
    assert!(cmds.is_empty());
}

#[test]
fn bind_attachments_framebuffer() {
    let mut b = Bindings::new();
    let mut cmds = Vec::new();
    let fb = Framebuffer::Attachments {
        color_attachments: AttachmentVec::from_vec(vec![color(1, 0), color(2, 3)]),
        depth_attachment: Some(depth(9)),
    };
    assert!(b.bind_framebuffer(&caps(), &fb, &mut cmds).is_ok());
    assert_eq!(
        cmds,
        vec![
            BindCommand::BindDrawFramebuffer(true),
            BindCommand::AttachColor { index: 0, texture: Some(1), level: 0 },
            BindCommand::AttachColor { index: 1, texture: Some(2), level: 3 },
            BindCommand::DrawBuffers(2),
            BindCommand::AttachDepth { location: DepthLocation::Depth, texture: Some(9), level: 0 },
        ]
    );
    assert_eq!(b.bound_color_attachment_ids, vec![1, 2]);
    assert_eq!(b.bound_depth_attachment_id, Some((DepthLocation::Depth, 9)));

    // Binding the same framebuffer again changes nothing.
    cmds.clear();
    assert!(b.bind_framebuffer(&caps(), &fb, &mut cmds).is_ok());
    assert!(cmds.is_empty());

    // Unbinding an attached texture detaches all color attachments.
    b.unbind_texture_2d_if_bound(&caps(), 2, &mut cmds);
    assert!(b.bound_color_attachment_ids.is_empty());
    assert_eq!(b.bound_depth_attachment_id, Some((DepthLocation::Depth, 9)));
}

#[test]
fn too_many_color_attachments() {
    let mut b = Bindings::new();
    let mut cmds = Vec::new();
    let attachments = vec![color(1, 0), color(2, 0), color(3, 0)];
    match b.bind_color_attachments(&caps(), &attachments, &mut cmds) {
        Err(FramebufferError::TooManyColorAttachments { requested, max }) => {
            assert_eq!(requested, 3);
            assert_eq!(max, 2);
        }
        other => panic!("unexpected result: {:?}", other),
    }
    assert!(cmds.is_empty());
    assert!(b.bound_color_attachment_ids.is_empty());
}

#[test]
fn too_many_draw_buffers() {
    let mut b = Bindings::new();
    let mut cmds = Vec::new();
    let caps = Caps { max_draw_buffers: 1, ..caps() };
    let attachments = vec![color(1, 0), color(2, 0)];
    match b.bind_color_attachments(&caps, &attachments, &mut cmds) {
        Err(FramebufferError::TooManyDrawBuffers { requested, max }) => {
            assert_eq!(requested, 2);
            assert_eq!(max, 1);
        }
        other => panic!("unexpected result: {:?}", other),
    }
}

#[test]
fn level_too_large() {
    let mut b = Bindings::new();
    let mut cmds = Vec::new();
    let attachments = vec![color(1, 2), color(2, 11)];
    match b.bind_color_attachments(&caps(), &attachments, &mut cmds) {
        Err(FramebufferError::LevelTooLarge { requested, max }) => {
            assert_eq!(requested, 11);
            assert_eq!(max, 10);
        }
        other => panic!("unexpected result: {:?}", other),
    }
    assert_eq!(
        cmds,
        vec![BindCommand::AttachColor { index: 0, texture: Some(1), level: 2 }]
    );
    assert!(b.bound_color_attachment_ids.is_empty());
}

#[test]
fn framebuffer_size_is_componentwise_max() {
    let fb = Framebuffer::Attachments {
        color_attachments: AttachmentVec::from_vec(vec![color(1, 0)]),
        depth_attachment: Some(depth(9)),
    };
    assert_eq!(fb.size([100, 100]), [32, 8]);
    assert_eq!(Framebuffer::Default.size([100, 50]), [100, 50]);
}

#[test]
fn unreached_attachments_may_be_any_format() {
    // Too many attachments: the error comes before any attachment is looked at.
    let mut b = Bindings::new();
    let mut cmds = Vec::new();
    let attachments = vec![color(1, 0), color(2, 0), depth(3)];
    assert!(matches!(
        b.bind_color_attachments(&caps(), &attachments, &mut cmds),
        Err(FramebufferError::TooManyColorAttachments { requested: 3, max: 2 })
    ));
    // A level that is too large stops binding before the later attachments.
    let attachments = vec![color(1, 11), depth(3)];
    assert!(matches!(
        b.bind_color_attachments(&caps(), &attachments, &mut cmds),
        Err(FramebufferError::LevelTooLarge { requested: 11, max: 10 })
    ));
    assert!(cmds.is_empty());
}
