use bitbang_dvi::display::dvi::DviInterface;
use bitbang_dvi::display::timing::TimingProfile;
use bitbang_dvi::display::tmds::decode;
use bitbang_dvi::graphics::camera::{barycentric, interpolate, shade, Camera, CameraError};
use bitbang_dvi::graphics::texture::Texture;
use bitbang_dvi::graphics::viewport::FrameBuffer;
use bitbang_dvi::math::Fixed;
use bitbang_dvi::model::{intersect, Face, Model, Vertex};
use bitbang_dvi::types::matrix::Mat4;
use bitbang_dvi::types::vector::{Vec2, Vec3, Vec4};

const ONE: i32 = 65536;

fn fx(raw: i32) -> Fixed {
    Fixed { raw }
}

fn v3(x: i32, y: i32, z: i32) -> Vec3<Fixed> {
    Vec3 { x: fx(x), y: fx(y), z: fx(z) }
}

fn vertex(pos: (i32, i32, i32), tex: (i32, i32), normal: (i32, i32, i32)) -> Vertex {
    Vertex {
        pos: Vec4 { x: fx(pos.0), y: fx(pos.1), z: fx(pos.2), w: fx(ONE) },
        tex_coords: Vec2 { x: fx(tex.0), y: fx(tex.1) },
        normal: Vec4 { x: fx(normal.0), y: fx(normal.1), z: fx(normal.2), w: fx(0) },
    }
}

fn model_of(verts: &[Vertex], faces: &[[usize; 3]]) -> Model {
    let mut model = Model { verts: heapless::Vec::new(), faces: heapless::Vec::new() };
    for v in verts {
        model.verts.push(*v).unwrap();
    }
    for f in faces {
        model.faces.push(Face { verts: *f }).unwrap();
    }
    model
}

/// A quad from (-1.5, -1.5) to (0.5, 0.5) at depth 0, textured from corner
/// to corner, with its normal along the rays.
fn quad() -> Model {
    let h = ONE / 2;
    let n = (0, 0, ONE);
    model_of(
        &[
            vertex((-3 * h, -3 * h, 0), (0, 0), n),
            vertex((h, -3 * h, 0), (ONE, 0), n),
            vertex((h, h, 0), (ONE, ONE), n),
            vertex((-3 * h, h, 0), (0, ONE), n),
        ],
        &[[0, 1, 2], [0, 2, 3]],
    )
}

fn flat_camera<const W: usize, const H: usize>() -> Camera<W, H> {
    Camera {
        pos: v3(0, 0, 5 * ONE),
        dir: v3(0, 0, -ONE),
        up: v3(0, ONE, 0),
        proj: Mat4::<Fixed>::idt(),
        view: Mat4::<Fixed>::idt(),
        near: fx(ONE / 10),
        far: fx(50 * ONE),
        fov_y: fx(90 * ONE),
        texture: Texture::<16, 16>::gen_checkerboard(),
    }
}

#[test]
fn face_new_is_all_zeroes() {
    assert_eq!(Face::new().verts, [0, 0, 0]);
}

#[test]
fn ray_meets_the_canonical_triangle() {
    let hit = intersect(
        v3(0, 0, 0),
        v3(ONE, 0, 0),
        v3(0, ONE, 0),
        v3(ONE / 4, ONE / 4, -ONE),
        v3(0, 0, ONE),
    );
    assert_eq!(hit, Some(v3(ONE / 4, ONE / 4, 0)));
}

#[test]
fn barycentric_weights_of_the_canonical_hit() {
    // texture coordinates and normals are chosen so that the interpolated
    // vertex shows the three weights
    let a = vertex((0, 0, 0), (ONE, 0), (0, 0, 0));
    let b = vertex((ONE, 0, 0), (0, ONE), (0, 0, 0));
    let c = vertex((0, ONE, 0), (0, 0), (ONE, 0, 0));
    let out = interpolate(&a, &b, &c, v3(ONE / 4, ONE / 4, 0));
    assert_eq!(out.tex_coords, Vec2 { x: fx(ONE / 2), y: fx(ONE / 4) });
    assert_eq!(out.normal.x, fx(ONE / 4));
    assert_eq!(out.pos, Vec4 { x: fx(ONE / 4), y: fx(ONE / 4), z: fx(0), w: fx(ONE) });
}

#[test]
fn barycentric_weights_by_name() {
    let w = barycentric(v3(0, 0, 0), v3(ONE, 0, 0), v3(0, ONE, 0), v3(ONE / 4, ONE / 4, 0));
    assert_eq!(w, v3(ONE / 2, ONE / 4, ONE / 4));
    // at a corner the whole weight is the corner's
    let w = barycentric(v3(0, 0, 0), v3(ONE, 0, 0), v3(0, ONE, 0), v3(ONE, 0, 0));
    assert_eq!(w, v3(0, ONE, 0));
    // a triangle without area has no weights
    let w = barycentric(v3(0, 0, 0), v3(0, 0, 0), v3(0, 0, 0), v3(0, 0, 0));
    assert_eq!(w, v3(0, 0, 0));
    // the weights lie from 0 to 1 and add up to 1, less two steps at most
    let w = barycentric(v3(-3 * ONE, ONE, 7), v3(5 * ONE, -ONE, 0), v3(ONE, 4 * ONE, 0), v3(ONE, ONE, 0));
    for part in [w.x.raw, w.y.raw, w.z.raw] {
        assert!(0 <= part && part <= ONE);
    }
    let sum = w.x.raw + w.y.raw + w.z.raw;
    assert!(ONE - 2 <= sum && sum <= ONE);
}

#[test]
fn face_intersection_reads_the_model() {
    let model = model_of(
        &[
            vertex((0, 0, 0), (0, 0), (0, 0, -ONE)),
            vertex((ONE, 0, 0), (0, 0), (0, 0, -ONE)),
            vertex((0, ONE, 0), (0, 0), (0, 0, -ONE)),
        ],
        &[[0, 1, 2]],
    );
    let face = Face { verts: [0, 1, 2] };
    let hit = face.ray_intersects_face(&model, v3(ONE / 4, ONE / 4, -ONE), v3(0, 0, ONE));
    assert_eq!(hit, Some(v3(ONE / 4, ONE / 4, 0)));
    assert!(face.ray_front_face(&model, v3(0, 0, ONE)));
    assert!(!face.ray_front_face(&model, v3(0, 0, -ONE)));
    assert!(!face.ray_front_face(&model, v3(ONE, 0, 0)));
}

#[test]
fn ray_misses() {
    let a = v3(0, 0, 0);
    let b = v3(ONE, 0, 0);
    let c = v3(0, ONE, 0);
    // outside the triangle
    assert_eq!(intersect(a, b, c, v3(ONE, ONE, -ONE), v3(0, 0, ONE)), None);
    assert_eq!(intersect(a, b, c, v3(-ONE / 4, ONE / 4, -ONE), v3(0, 0, ONE)), None);
    // parallel to the triangle
    assert_eq!(intersect(a, b, c, v3(ONE / 4, ONE / 4, -ONE), v3(ONE, 0, 0)), None);
    // triangle behind the origin
    assert_eq!(intersect(a, b, c, v3(ONE / 4, ONE / 4, ONE), v3(0, 0, ONE)), None);
    // degenerate triangle
    assert_eq!(intersect(a, a, a, v3(0, 0, -ONE), v3(0, 0, ONE)), None);
}

#[test]
fn checkerboard_texture() {
    let tex = Texture::<16, 16>::gen_checkerboard();
    let black = Some(Vec3 { x: 0u8, y: 0, z: 0 });
    let white = Some(Vec3 { x: 255u8, y: 255, z: 255 });
    let tenth = Fixed::from_ratio(1, 10);
    let six_tenths = Fixed::from_ratio(6, 10);
    assert_eq!(tex.sample(Vec2 { x: tenth, y: tenth }), black);
    assert_eq!(tex.sample(Vec2 { x: six_tenths, y: six_tenths }), white);
    assert_eq!(tex.sample(Vec2 { x: six_tenths, y: tenth }), black);
    assert_eq!(tex.sample(Vec2 { x: tenth, y: six_tenths }), black);
    assert_eq!(tex.sample_f(six_tenths, six_tenths), white);
}

#[test]
fn texture_addresses_row_major() {
    let tex = Texture::<16, 4>::gen_checkerboard();
    for y in 0..4 {
        for x in 0..16 {
            assert_eq!(tex.sample_pixels(x, y), Some(Vec3 { x: 0u8, y: 0, z: 0 }));
        }
    }
    let tall = Texture::<9, 16>::gen_checkerboard();
    assert_eq!(tall.sample_pixels(8, 8), Some(Vec3 { x: 255u8, y: 255, z: 255 }));
    assert_eq!(tall.sample_pixels(8, 7), Some(Vec3 { x: 0u8, y: 0, z: 0 }));
    assert_eq!(tall.sample_pixels(7, 8), Some(Vec3 { x: 0u8, y: 0, z: 0 }));
    assert_eq!(tall.sample_pixels(8, 15), Some(Vec3 { x: 255u8, y: 255, z: 255 }));
    // the last texel of the unit square
    assert_eq!(tall.sample_f(fx(ONE - 1), fx(ONE - 1)), Some(Vec3 { x: 255u8, y: 255, z: 255 }));
}

#[test]
fn texture_has_nothing_outside() {
    let tex = Texture::<16, 16>::gen_checkerboard();
    assert_eq!(tex.sample_pixels(16, 0), None);
    assert_eq!(tex.sample_pixels(0, 16), None);
    assert_eq!(tex.sample_f(fx(ONE), fx(0)), None);
    assert_eq!(tex.sample_f(fx(0), fx(ONE)), None);
    assert_eq!(tex.sample_f(fx(-1), fx(0)), None);
    assert_eq!(tex.sample_f(fx(0), fx(-1)), None);
    let empty = Texture::<0, 5>::gen_checkerboard();
    assert_eq!(empty.sample_f(fx(0), fx(0)), None);
}

#[test]
fn frame_buffer_fills_in_raster_order() {
    let mut fb = FrameBuffer::<3, 2>::new();
    assert_eq!(fb.len(), 0);
    for i in 0..6u8 {
        assert!(fb.push(Vec3 { x: i, y: 0, z: 0 }));
    }
    assert!(!fb.push(Vec3 { x: 9, y: 9, z: 9 }));
    assert_eq!(fb.len(), 6);
    assert_eq!(fb.get(0, 0).x, 0);
    assert_eq!(fb.get(2, 0).x, 2);
    assert_eq!(fb.get(0, 1).x, 3);
    assert_eq!(fb.get(2, 1).x, 5);
}

#[test]
fn frame_buffer_stops_at_the_grid_capacity() {
    let mut fb = FrameBuffer::<500, 400>::new();
    for _ in 0..172_800 {
        assert!(fb.push(Vec3 { x: 1, y: 2, z: 3 }));
    }
    assert!(!fb.push(Vec3 { x: 1, y: 2, z: 3 }));
    assert_eq!(fb.len(), 172_800);
}

#[test]
fn frame_buffer_holds_the_largest_raster() {
    let mut fb = FrameBuffer::<480, 360>::new();
    for i in 0..172_800u32 {
        assert!(fb.push(Vec3 { x: (i % 251) as u8, y: 0, z: 0 }));
    }
    assert!(!fb.push(Vec3 { x: 0, y: 0, z: 0 }));
    assert_eq!(fb.get(479, 359).x, (172_799u32 % 251) as u8);
    assert_eq!(fb.get(0, 1).x, (480u32 % 251) as u8);
}

#[test]
fn checkerboard_of_32_by_32() {
    let tex = Texture::<32, 32>::gen_checkerboard();
    let black = Some(Vec3 { x: 0u8, y: 0, z: 0 });
    let white = Some(Vec3 { x: 255u8, y: 255, z: 255 });
    for y in 0..32usize {
        for x in 0..32usize {
            let expected = if (x / 8) % 2 == 1 && (y / 8) % 2 == 1 { white } else { black };
            assert_eq!(tex.sample_pixels(x, y), expected, "texel {x} {y}");
        }
    }
    assert_eq!(tex.sample_pixels(31, 31), white);
    assert_eq!(tex.sample_f(fx(ONE - 1), fx(ONE - 1)), white);
    assert_eq!(tex.sample_f(fx(ONE / 2), fx(ONE - 1)), black);
    assert_eq!(tex.sample_pixels(32, 0), None);
}

#[test]
fn checkerboard_of_the_largest_size() {
    let tex = Texture::<200, 150>::gen_checkerboard();
    assert_eq!(tex.sample_pixels(199, 149), Some(Vec3 { x: 0u8, y: 0, z: 0 }));
    assert_eq!(tex.sample_pixels(191, 143), Some(Vec3 { x: 255u8, y: 255, z: 255 }));
    assert_eq!(tex.sample_pixels(191, 149), Some(Vec3 { x: 0u8, y: 0, z: 0 }));
    assert_eq!(tex.sample_pixels(8, 8), Some(Vec3 { x: 255u8, y: 255, z: 255 }));
    assert_eq!(tex.sample_pixels(0, 150), None);
}

#[test]
fn texture_beyond_its_table_holds_the_first_texels() {
    // 200 columns: the table of 30 000 texels holds rows 0 to 149
    let tex = Texture::<200, 200>::gen_checkerboard();
    assert_eq!(tex.sample_pixels(199, 149), Some(Vec3 { x: 0u8, y: 0, z: 0 }));
    assert_eq!(tex.sample_pixels(191, 143), Some(Vec3 { x: 255u8, y: 255, z: 255 }));
    assert_eq!(tex.sample_pixels(0, 150), None);
    assert_eq!(tex.sample_pixels(8, 152), None);
    assert_eq!(tex.sample_f(fx(0), fx(ONE / 2)), Some(Vec3 { x: 0u8, y: 0, z: 0 }));
    assert_eq!(tex.sample_f(fx(0), fx(ONE - 1)), None);
}

#[test]
fn raster_of_160_by_120() {
    let cam = flat_camera::<160, 120>();
    let fb = cam.render(&quad(), Mat4::<Fixed>::idt());
    assert_eq!(fb.len(), 160 * 120);
    // the ray of pixel (80, 60) passes through (0, 0), that of (0, 0) through (-1, -1)
    assert_eq!(fb.get(80, 60), Vec3 { x: 142u8, y: 142, z: 142 });
    assert_eq!(fb.get(0, 0), Vec3 { x: 25u8, y: 25, z: 25 });
    // right of 0.5 and below 0.5 no ray meets the quad
    assert_eq!(fb.get(159, 60), Vec3 { x: 0u8, y: 0, z: 0 });
    assert_eq!(fb.get(80, 119), Vec3 { x: 0u8, y: 0, z: 0 });
}

#[test]
fn raster_of_480_by_360() {
    let cam = flat_camera::<480, 360>();
    let empty = model_of(&[], &[]);
    let fb = cam.render(&empty, Mat4::<Fixed>::idt());
    assert_eq!(fb.len(), 480 * 360);
    assert_eq!(fb.get(479, 359), Vec3 { x: 0u8, y: 0, z: 0 });
}

#[test]
fn raster_beyond_a_frame_is_cut_where_the_frame_ends() {
    let cam = flat_camera::<500, 400>();
    let fb = cam.render_test();
    assert_eq!(fb.len(), 172_800);
    // 172 800 pixels are 345 rows of 500 and 300 more
    assert_eq!(fb.get(299, 345), Vec3 { x: 152u8, y: 219, z: 0 });
    assert_eq!(fb.get(499, 344), Vec3 { x: 254u8, y: 219, z: 0 });
    let fb = cam.render(&model_of(&[], &[]), Mat4::<Fixed>::idt());
    assert_eq!(fb.len(), 172_800);
}

#[test]
fn empty_rasters() {
    let cam = flat_camera::<0, 7>();
    assert_eq!(cam.render(&quad(), Mat4::<Fixed>::idt()).len(), 0);
    assert_eq!(cam.render_test().len(), 0);
    let cam = flat_camera::<7, 0>();
    assert_eq!(cam.render(&quad(), Mat4::<Fixed>::idt()).len(), 0);
}

#[test]
fn model_hands_out_its_tables() {
    let model = quad();
    assert_eq!(model.vertex_count(), 4);
    assert_eq!(model.face_count(), 2);
    assert_eq!(model.face(1).verts, [0, 2, 3]);
    assert_eq!(model.vertex(2).tex_coords, Vec2 { x: fx(ONE), y: fx(ONE) });
    assert!(model.check());
    let broken = model_of(&[vertex((0, 0, 0), (0, 0), (0, 0, ONE))], &[[0, 0, 1]]);
    assert!(!broken.check());
    // a face is cast against the model through what the model hands out
    let face = model.face(0);
    assert!(face.verts.iter().all(|i| *i < model.vertex_count()));
    let hit = face.ray_intersects_face(&model, v3(0, -ONE, -ONE), v3(0, 0, ONE));
    assert_eq!(hit, Some(v3(0, -ONE, 0)));
}

#[test]
fn shade_exact_values() {
    let tex = Texture::<16, 16>::gen_checkerboard();
    let lit_white = vertex((0, 0, 0), (3 * ONE / 4, 3 * ONE / 4), (0, 0, ONE));
    assert_eq!(shade(&lit_white, &tex), Vec3 { x: 142u8, y: 142, z: 142 });
    let lit_black = vertex((0, 0, 0), (ONE / 4, ONE / 4), (0, 0, ONE));
    assert_eq!(shade(&lit_black, &tex), Vec3 { x: 25u8, y: 25, z: 25 });
    let unlit_white = vertex((0, 0, 0), (3 * ONE / 4, 3 * ONE / 4), (0, 0, -ONE));
    assert_eq!(shade(&unlit_white, &tex), Vec3 { x: 25u8, y: 25, z: 25 });
    let outside = vertex((0, 0, 0), (ONE, 0), (0, 0, ONE));
    assert_eq!(shade(&outside, &tex), Vec3 { x: 0u8, y: 0, z: 0 });
}

#[test]
fn raster_of_a_quad() {
    let cam = flat_camera::<2, 2>();
    let model = quad();
    let fb = cam.render(&model, Mat4::<Fixed>::idt());
    assert_eq!(fb.len(), 4);
    let tex = Texture::<16, 16>::gen_checkerboard();
    let quarter = ONE / 4;
    for y in 0..2usize {
        for x in 0..2usize {
            let u = quarter + (x as i32) * (ONE / 2);
            let v = quarter + (y as i32) * (ONE / 2);
            let at = vertex(((x as i32 - 1) * ONE, (y as i32 - 1) * ONE, 0), (u, v), (0, 0, ONE));
            assert_eq!(fb.get(x, y), shade(&at, &tex), "pixel {x} {y}");
        }
    }
    assert_eq!(fb.get(0, 0), Vec3 { x: 25u8, y: 25, z: 25 });
    assert_eq!(fb.get(1, 0), Vec3 { x: 25u8, y: 25, z: 25 });
    assert_eq!(fb.get(0, 1), Vec3 { x: 27u8, y: 27, z: 27 });
    assert_eq!(fb.get(1, 1), Vec3 { x: 142u8, y: 142, z: 142 });
}

#[test]
fn raster_of_a_quad_at_four_by_four() {
    let cam = flat_camera::<4, 4>();
    let fb = cam.render(&quad(), Mat4::<Fixed>::idt());
    let expected: [u8; 16] = [25, 25, 25, 0, 25, 123, 139, 0, 27, 126, 142, 0, 0, 0, 0, 0];
    for (i, e) in expected.iter().enumerate() {
        let p = fb.get(i % 4, i / 4);
        assert_eq!(p, Vec3 { x: *e, y: *e, z: *e }, "pixel {i}");
    }
}

#[test]
fn render_is_deterministic() {
    let cam = flat_camera::<4, 3>();
    let model = quad();
    let first = cam.render(&model, Mat4::<Fixed>::idt());
    let second = cam.render(&model, Mat4::<Fixed>::idt());
    assert_eq!(first.len(), 12);
    for y in 0..3 {
        for x in 0..4 {
            assert_eq!(first.get(x, y), second.get(x, y));
        }
    }
}

#[test]
fn misses_render_black() {
    let cam = flat_camera::<2, 2>();
    let empty = model_of(&[], &[]);
    let fb = cam.render(&empty, Mat4::<Fixed>::idt());
    for y in 0..2 {
        for x in 0..2 {
            assert_eq!(fb.get(x, y), Vec3 { x: 0u8, y: 0, z: 0 });
        }
    }
}

#[test]
fn last_face_hit_wins() {
    // two triangles over the same ray, with different texture coordinates
    let n = (0, 0, ONE);
    let black_uv = (ONE / 4, ONE / 4);
    let white_uv = (3 * ONE / 4, 3 * ONE / 4);
    let tri = |uv: (i32, i32), z: i32| {
        [
            vertex((-2 * ONE, -2 * ONE, z), uv, n),
            vertex((2 * ONE, -2 * ONE, z), uv, n),
            vertex((0, 2 * ONE, z), uv, n),
        ]
    };
    let near = tri(black_uv, 0);
    let far = tri(white_uv, ONE);
    let mut verts = Vec::new();
    verts.extend_from_slice(&near);
    verts.extend_from_slice(&far);
    let near_last = model_of(&verts, &[[3, 4, 5], [0, 1, 2]]);
    let far_last = model_of(&verts, &[[0, 1, 2], [3, 4, 5]]);
    let at = Camera::<2, 2>::cast(&near_last, 1, 1).unwrap();
    assert_eq!(at.pos.z, fx(0));
    let at = Camera::<2, 2>::cast(&far_last, 1, 1).unwrap();
    assert_eq!(at.pos.z, fx(ONE));
}

#[test]
fn model_transform_moves_the_model() {
    let cam = flat_camera::<2, 2>();
    let model = quad();
    // moved two units to the right, the quad spans 0.5 to 2.5: no ray meets it
    let moved = Mat4::<Fixed>::translate(v3(2 * ONE, 0, 0));
    let fb = cam.render(&model, moved);
    for y in 0..2 {
        for x in 0..2 {
            assert_eq!(fb.get(x, y), Vec3 { x: 0u8, y: 0, z: 0 });
        }
    }
    let local = model.placed_by(moved, cam.view, cam.proj);
    assert_eq!(local.verts[0].pos.x, fx(ONE / 2));
    assert_eq!(local.verts.len(), 4);
    assert_eq!(local.faces.len(), 2);
    assert_eq!(local.faces[1].verts, [0, 2, 3]);
}

#[test]
fn vertices_are_divided_by_w() {
    let model = quad();
    let mut proj = Mat4::<Fixed>::idt();
    proj.v_33 = fx(2 * ONE);
    let local = model.placed_by(Mat4::<Fixed>::idt(), Mat4::<Fixed>::idt(), proj);
    assert_eq!(local.verts[0].pos, Vec4 { x: fx(-3 * ONE / 4), y: fx(-3 * ONE / 4), z: fx(0), w: fx(ONE) });
    // a fourth component of zero leaves the position undivided
    proj.v_33 = fx(0);
    let local = model.placed_by(Mat4::<Fixed>::idt(), Mat4::<Fixed>::idt(), proj);
    assert_eq!(local.verts[0].pos, Vec4 { x: fx(-3 * ONE / 2), y: fx(-3 * ONE / 2), z: fx(0), w: fx(ONE) });
}

#[test]
fn test_pattern_is_a_gradient() {
    let cam = flat_camera::<4, 2>();
    let fb = cam.render_test();
    assert_eq!(fb.len(), 8);
    assert_eq!(fb.get(0, 0), Vec3 { x: 0u8, y: 0, z: 0 });
    assert_eq!(fb.get(1, 0), Vec3 { x: 63u8, y: 0, z: 0 });
    assert_eq!(fb.get(3, 0), Vec3 { x: 191u8, y: 0, z: 0 });
    assert_eq!(fb.get(2, 1), Vec3 { x: 127u8, y: 127, z: 0 });
}

#[test]
fn camera_setup() {
    let cam = Camera::<80, 60>::perspective(
        fx(90 * ONE),
        fx(ONE),
        v3(5 * ONE, 0, 0),
        v3(-ONE, 0, 0),
        v3(0, ONE, 0),
        fx(ONE / 10),
        fx(50 * ONE),
    )
    .ok()
    .unwrap();
    assert_eq!(cam.pos, v3(5 * ONE, 0, 0));
    assert_eq!(cam.fov_y, fx(90 * ONE));
    // aspect 4:3, focal length 1
    assert_eq!(cam.proj.v_00, fx(49152));
    assert_eq!(cam.proj.v_11, fx(ONE));
    assert_eq!(cam.proj.v_32, fx(-ONE));
    assert_eq!(cam.proj.v_33, fx(0));
    // the eye goes to the origin
    let eye = cam.view.mul_vec(Vec4 { x: fx(5 * ONE), y: fx(0), z: fx(0), w: fx(ONE) });
    assert_eq!(eye, Vec4 { x: fx(0), y: fx(0), z: fx(0), w: fx(ONE) });
    // a point before the eye lies on the negative z axis
    let ahead = cam.view.mul_vec(Vec4 { x: fx(3 * ONE), y: fx(0), z: fx(0), w: fx(ONE) });
    assert_eq!(ahead, Vec4 { x: fx(0), y: fx(0), z: fx(-2 * ONE), w: fx(ONE) });
    assert_eq!(cam.texture.sample_pixels(8, 8), Some(Vec3 { x: 255u8, y: 255, z: 255 }));
}

#[test]
fn projection_maps_near_and_far_to_the_ends() {
    let proj = Camera::<4, 4>::projection(fx(ONE), fx(3 * ONE), fx(ONE), fx(ONE)).ok().unwrap();
    let near = proj.mul_vec(Vec4 { x: fx(0), y: fx(0), z: fx(-ONE), w: fx(ONE) });
    assert_eq!(near.perspective_division().z, fx(-ONE));
    let far = proj.mul_vec(Vec4 { x: fx(0), y: fx(0), z: fx(-3 * ONE), w: fx(ONE) });
    assert_eq!(far.perspective_division().z, fx(ONE));
}

#[test]
fn camera_setup_failures() {
    let make = |near: i32, far: i32| {
        Camera::<4, 4>::perspective(
            fx(90 * ONE),
            fx(ONE),
            v3(0, 0, 0),
            v3(0, 0, -ONE),
            v3(0, ONE, 0),
            fx(near),
            fx(far),
        )
    };
    assert!(matches!(make(ONE, ONE), Err(CameraError::ZeroDepth)));
    assert!(make(ONE, 2 * ONE).is_ok());
    let flat = Camera::<4, 0>::perspective(
        fx(90 * ONE),
        fx(ONE),
        v3(0, 0, 0),
        v3(0, 0, -ONE),
        v3(0, ONE, 0),
        fx(ONE),
        fx(2 * ONE),
    );
    assert!(matches!(flat, Err(CameraError::ZeroAspect)));
    assert!(matches!(
        Camera::<4, 4>::projection(fx(ONE), fx(2 * ONE), fx(ONE), fx(0)),
        Err(CameraError::ZeroAspect)
    ));
}

#[test]
fn frame_goes_out_pixel_by_pixel() {
    let profile = TimingProfile {
        h_active: 2,
        h_front: 1,
        h_sync: 1,
        h_back: 1,
        v_active: 2,
        v_front: 1,
        v_sync: 1,
        v_back: 1,
        hsync_polarity: false,
        vsync_polarity: false,
        pixel_clock_hz: 1_000_000,
    };
    let mut fb = FrameBuffer::<2, 2>::new();
    for i in 0..4u8 {
        fb.push(Vec3 { x: 10 + i, y: 20 + i, z: 30 + i });
    }
    let mut link = DviInterface::new(profile).unwrap();
    let levels = link.send_frame(&fb);
    assert_eq!(levels.len(), 5 * 5 * 10);
    assert_eq!((link.x(), link.y(), link.k()), (0, 0, 0));
    let symbol = |slot: usize, lane: usize| {
        let mut s = 0u16;
        for i in 0..10 {
            let l = levels[slot * 10 + i];
            let bit = match lane {
                0 => l.red,
                1 => l.green,
                _ => l.blue,
            };
            if bit {
                s |= 1 << i;
            }
        }
        s
    };
    assert_eq!(decode(symbol(0, 0)), 10);
    assert_eq!(decode(symbol(0, 1)), 20);
    assert_eq!(decode(symbol(1, 2)), 31);
    assert_eq!(decode(symbol(5, 0)), 12);
    assert_eq!(decode(symbol(6, 1)), 23);
    assert_eq!(symbol(2, 0), 0b0010101011);
    assert_eq!(symbol(3, 0), 0b1101010100);
    assert_eq!(symbol(15, 0), 0b0010101010);
    assert_eq!(symbol(18, 2), 0b1101010101);
}

#[test]
fn frame_of_a_rendered_raster() {
    let profile = TimingProfile {
        h_active: 2,
        h_front: 1,
        h_sync: 1,
        h_back: 1,
        v_active: 2,
        v_front: 1,
        v_sync: 1,
        v_back: 1,
        hsync_polarity: false,
        vsync_polarity: false,
        pixel_clock_hz: 1_000_000,
    };
    let cam = flat_camera::<2, 2>();
    let fb = cam.render(&quad(), Mat4::<Fixed>::idt());
    let mut link = DviInterface::new(profile).unwrap();
    let first = link.send_frame(&fb);
    let mut again = DviInterface::new(profile).unwrap();
    let second = again.send_frame(&fb);
    assert_eq!(first, second);
}

#[test]
fn frame_bit_by_bit_is_the_frame_at_once() {
    let profile = TimingProfile {
        h_active: 3,
        h_front: 1,
        h_sync: 1,
        h_back: 1,
        v_active: 2,
        v_front: 1,
        v_sync: 1,
        v_back: 1,
        hsync_polarity: true,
        vsync_polarity: false,
        pixel_clock_hz: 1_000_000,
    };
    let mut fb = FrameBuffer::<2, 2>::new();
    for i in 0..4u8 {
        fb.push(Vec3 { x: 200 + i, y: 100 + i, z: i });
    }
    let mut at_once = DviInterface::new(profile).unwrap();
    let levels = at_once.send_frame(&fb);
    let mut stepped = DviInterface::new(profile).unwrap();
    for expected in levels.iter() {
        assert_eq!(stepped.tick_frame(&fb), *expected);
    }
    assert_eq!((stepped.x(), stepped.y(), stepped.k()), (0, 0, 0));
    // the third column is active, but lies outside the raster: it is black
    let mut symbol = 0u16;
    for i in 0..10 {
        if levels[20 + i].red {
            symbol |= 1 << i;
        }
    }
    assert_eq!(decode(symbol), 0);
}

#[test]
fn unfinished_frame_is_black_where_it_ends() {
    let profile = TimingProfile {
        h_active: 2,
        h_front: 1,
        h_sync: 1,
        h_back: 1,
        v_active: 2,
        v_front: 1,
        v_sync: 1,
        v_back: 1,
        hsync_polarity: false,
        vsync_polarity: false,
        pixel_clock_hz: 1_000_000,
    };
    let mut fb = FrameBuffer::<2, 2>::new();
    fb.push(Vec3 { x: 77, y: 77, z: 77 });
    let mut link = DviInterface::new(profile).unwrap();
    let levels = link.send_frame(&fb);
    let red = |slot: usize| {
        let mut s = 0u16;
        for i in 0..10 {
            if levels[slot * 10 + i].red {
                s |= 1 << i;
            }
        }
        decode(s)
    };
    assert_eq!(red(0), 77);
    assert_eq!(red(1), 0);
    assert_eq!(red(5), 0);
    assert_eq!(red(6), 0);
}

#[test]
fn scene_bit_by_bit_is_its_frame_bit_by_bit() {
    let profile = TimingProfile {
        h_active: 5,
        h_front: 1,
        h_sync: 1,
        h_back: 1,
        v_active: 4,
        v_front: 1,
        v_sync: 1,
        v_back: 1,
        hsync_polarity: true,
        vsync_polarity: false,
        pixel_clock_hz: 1_000_000,
    };
    let cam = flat_camera::<4, 4>();
    let model = quad();
    let frame = cam.render(&model, Mat4::<Fixed>::idt());
    let local = model.placed_by(Mat4::<Fixed>::idt(), cam.view, cam.proj);
    assert!(local.check());
    let mut by_frame = DviInterface::new(profile).unwrap();
    let mut by_scene = DviInterface::new(profile).unwrap();
    for _ in 0..(8 * 7 * 10) {
        let expected = by_frame.tick_frame(&frame);
        assert_eq!(by_scene.tick_scene(&cam, &local), expected);
        assert_eq!(by_scene.disparities(), by_frame.disparities());
    }
    assert_eq!((by_scene.x(), by_scene.y(), by_scene.k()), (0, 0, 0));
}

#[test]
fn scene_carries_the_shaded_pixels() {
    let profile = TimingProfile {
        h_active: 2,
        h_front: 1,
        h_sync: 1,
        h_back: 1,
        v_active: 2,
        v_front: 1,
        v_sync: 1,
        v_back: 1,
        hsync_polarity: false,
        vsync_polarity: false,
        pixel_clock_hz: 1_000_000,
    };
    let cam = flat_camera::<2, 2>();
    let local = quad().placed_by(Mat4::<Fixed>::idt(), cam.view, cam.proj);
    let mut link = DviInterface::new(profile).unwrap();
    let mut reds = Vec::new();
    for _slot in 0..25 {
        let mut symbol = 0u16;
        for i in 0..10 {
            if link.tick_scene(&cam, &local).red {
                symbol |= 1 << i;
            }
        }
        reds.push(symbol);
    }
    assert_eq!(decode(reds[0]), 25);
    assert_eq!(decode(reds[1]), 25);
    assert_eq!(decode(reds[5]), 27);
    assert_eq!(decode(reds[6]), 142);
    assert_eq!(reds[2], 0b0010101011);
}
