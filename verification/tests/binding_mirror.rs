use std::collections::HashMap;

use posh::gl::raw::context::{BindCommand, Bindings, Caps, DepthLocation};
use posh::gl::raw::framebuffer::{Attachment, Framebuffer, TextureInfo};
use posh::gl::raw::small_vec::AttachmentVec;
use posh::gl::raw::image::ImageInternalFormat;

/// What a context has bound, as the commands leave it.
#[derive(Debug, Default)]
struct Gl {
    program: Option<u32>,
    draw_fbo: bool,
    color: HashMap<usize, u32>,
    depth: Option<u32>,
    depth_stencil: Option<u32>,
    textures: HashMap<usize, u32>,
    uniform_buffers: HashMap<u32, u32>,
}

fn set<K: std::hash::Hash + Eq, V>(m: &mut HashMap<K, V>, k: K, v: Option<V>) {
    match v {
        Some(v) => {
            m.insert(k, v);
        }
        None => {
            m.remove(&k);
        }
    }
}

impl Gl {
    fn run(&mut self, cmds: &[BindCommand]) {
        for cmd in cmds {
            match *cmd {
                BindCommand::UseProgram(p) => self.program = p,
                BindCommand::BindDrawFramebuffer(yes) => self.draw_fbo = yes,
                BindCommand::AttachColor { index, texture, .. } => {
                    assert!(self.draw_fbo);
                    set(&mut self.color, index, texture);
                }
                BindCommand::AttachDepth { location, texture, .. } => {
                    assert!(self.draw_fbo);
                    match location {
                        DepthLocation::Depth => self.depth = texture,
                        DepthLocation::DepthStencil => self.depth_stencil = texture,
                    }
                }
                BindCommand::DrawBuffers(_) => {}
                BindCommand::BindTexture2d { unit, texture } => set(&mut self.textures, unit, texture),
                BindCommand::BindUniformBuffer { location, buffer } => {
                    set(&mut self.uniform_buffers, location, buffer)
                }
            }
        }
    }

    fn assert_mirrors(&self, b: &Bindings) {
        assert_eq!(self.program, b.bound_program_id);
        assert_eq!(self.draw_fbo, b.is_draw_fbo_bound);
        let color: HashMap<usize, u32> = b.bound_color_attachment_ids.iter().copied().enumerate().collect();
        assert_eq!(self.color, color);
        match b.bound_depth_attachment_id {
            Some((DepthLocation::Depth, id)) => assert_eq!((self.depth, self.depth_stencil), (Some(id), None)),
            Some((DepthLocation::DepthStencil, id)) => {
                assert_eq!((self.depth, self.depth_stencil), (None, Some(id)))
            }
            None => assert_eq!((self.depth, self.depth_stencil), (None, None)),
        }
        let textures: HashMap<usize, u32> = b
            .bound_texture_2d_ids
            .iter()
            .enumerate()
            .filter_map(|(i, t)| t.map(|t| (i, t)))
            .collect();
        assert_eq!(self.textures, textures);
        let buffers: HashMap<u32, u32> = b
            .bound_uniform_buffer_ids
            .iter()
            .enumerate()
            .filter_map(|(i, t)| t.map(|t| (i as u32, t)))
            .collect();
        assert_eq!(self.uniform_buffers, buffers);
    }
}

fn attachment(id: u32, format: ImageInternalFormat) -> Attachment {
    Attachment::Texture2d {
        texture: TextureInfo { id, size: [4, 4], internal_format: format },
        level: 0,
    }
}

#[test]
fn commands_keep_the_context_in_step_with_the_record() {
    let caps = Caps {
        max_texture_size: 64,
        max_color_attachments: 4,
        max_draw_buffers: 4,
        disjoint_timer_query_webgl2: false,
    };
    let mut b = Bindings::new();
    let mut gl = Gl::default();
    gl.assert_mirrors(&b);

    let step = |b: &mut Bindings, gl: &mut Gl, f: &dyn Fn(&mut Bindings, &mut Vec<BindCommand>)| {
        let mut cmds = Vec::new();
        f(b, &mut cmds);
        gl.run(&cmds);
        gl.assert_mirrors(b);
    };

    step(&mut b, &mut gl, &|b, c| b.bind_program(Some(5), c));
    step(&mut b, &mut gl, &|b, c| b.bind_texture_2d(3, Some(11), c));
    step(&mut b, &mut gl, &|b, c| b.bind_texture_2d(0, Some(12), c));
    step(&mut b, &mut gl, &|b, c| b.bind_uniform_buffer(2, Some(21), c));
    step(&mut b, &mut gl, &|b, c| b.bind_uniform_buffer(0, Some(21), c));
    let fb = Framebuffer::Attachments {
        color_attachments: AttachmentVec::from_vec(vec![
            attachment(11, ImageInternalFormat::RgbaU8),
            attachment(13, ImageInternalFormat::RgbaF32),
        ]),
        depth_attachment: Some(attachment(14, ImageInternalFormat::DepthF32)),
    };
    step(&mut b, &mut gl, &|b, c| {
        b.bind_framebuffer(&caps, &fb, c).unwrap();
    });
    let fewer = Framebuffer::Attachments {
        color_attachments: AttachmentVec::from_vec(vec![attachment(13, ImageInternalFormat::RgbaF32)]),
        depth_attachment: None,
    };
    step(&mut b, &mut gl, &|b, c| {
        b.bind_framebuffer(&caps, &fewer, c).unwrap();
    });
    step(&mut b, &mut gl, &|b, c| {
        b.bind_framebuffer(&caps, &fb, c).unwrap();
    });
    step(&mut b, &mut gl, &|b, c| b.unbind_texture_2d_if_bound(&caps, 11, c));
    step(&mut b, &mut gl, &|b, c| b.unbind_texture_2d_if_bound(&caps, 14, c));
    step(&mut b, &mut gl, &|b, c| b.unbind_buffer_if_bound(21, c));
    step(&mut b, &mut gl, &|b, c| {
        b.bind_framebuffer(&caps, &Framebuffer::Default, c).unwrap();
    });
    step(&mut b, &mut gl, &|b, c| b.unbind_program_if_bound(5, c));
    assert_eq!(b.bound_program_id, None);
}
