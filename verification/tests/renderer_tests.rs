use lensing::fxaa::{EdgeThresholdMax, EdgeThresholdMin, FXAADetails, FXAADetailsUniform};
use lensing::geometry::Vec3;
use lensing::material::{Color, Material, MaterialArrayBuffer};
use lensing::mesh::MeshError;
use lensing::model::{Model, ModelArrayBuffer, MAX_IDENT_LENGTH};
use lensing::pipelines::{Resolution, StageKind};
use lensing::renderer::{
    handle_frame_outcome, present_mode_to_string, FrameAction, PresentMode, Renderer,
    SurfaceConfiguration, SurfaceError,
};
use lensing::surface::{choose_surface_format, first_flagged, srgb_flags};
use lensing::triangle::{Node, Triangle};
use lensing::ui::{
    integration_method_label, BlackHoleSettings, CameraSettings, ModelSettings, RendererSettings,
};

#[test]
fn resize_to_nothing_is_ignored() {
    let mut renderer = Renderer::new(800, 600);
    let before = renderer.surface_config;
    assert!(!renderer.resize(0, 600));
    assert_eq!(renderer.surface_config, before);
    assert!(!renderer.resize(800, 0));
    assert_eq!(renderer.surface_config, before);
    assert!(!renderer.resize(0, 0));
    assert_eq!(renderer.surface_config, before);
}

#[test]
fn resize_takes_a_real_size() {
    let mut renderer = Renderer::new(800, 600);
    assert!(renderer.resize(1, 2000));
    assert_eq!(
        renderer.surface_config,
        SurfaceConfiguration { width: 1, height: 2000, present_mode: PresentMode::AutoVsync }
    );
    assert_eq!(renderer.chain.stages.len(), 22);
}

#[test]
fn new_renderer() {
    let renderer = Renderer::new(0, 0);
    assert_eq!(
        renderer.surface_config,
        SurfaceConfiguration { width: 1, height: 1, present_mode: PresentMode::AutoVsync }
    );
    assert_eq!(renderer.present_mode, PresentMode::AutoVsync);
    assert_eq!(renderer.ray_details.max_iterations, 2000);
    assert_eq!(renderer.fxaa_details.iterations, 12);
    assert_eq!(renderer.fxaa_details.subpixel_quality, 7500);
    assert_eq!(renderer.chain.stages.len(), 22);
    assert_eq!(renderer.chain.stages[0].resolution, Resolution { width: 8, height: 4 });
    assert_eq!(renderer.chain.stages[4].resolution, Resolution { width: 1793, height: 769 });
    assert_eq!(renderer.chain.stages[5].kind, StageKind::Sky);
    assert_eq!(renderer.chain.stages[5].resolution, Resolution { width: 1793, height: 769 });
    assert_eq!(renderer.chain.stages[21].kind, StageKind::Screen);
}

#[test]
fn changed_present_mode_asks_for_reconfiguration() {
    let mut renderer = Renderer::new(640, 480);
    let mut materials = MaterialArrayBuffer::new();
    materials.insert(Material::new(Color { r: 1, g: 2, b: 3, a: 4 })).unwrap();
    materials.insert(Material::new(Color { r: 1, g: 2, b: 3, a: 4 })).unwrap();
    let mut models = ModelArrayBuffer::new();
    models.insert(Model::new("m")).unwrap();
    assert!(!renderer.prepare_frame(&materials, &models));
    assert_eq!(renderer.ray_details.material_count, 2);
    assert_eq!(renderer.ray_details.model_count, 1);
    assert_eq!(
        renderer.fxaa_details_uniform,
        FXAADetailsUniform {
            edge_threshold_min: 156,
            edge_threshold_max: 630,
            iterations: 12,
            subpixel_quality: 7500,
        }
    );
    renderer.present_mode = PresentMode::Mailbox;
    assert!(renderer.prepare_frame(&materials, &models));
    assert_eq!(renderer.surface_config.present_mode, PresentMode::Mailbox);
    assert_eq!(renderer.surface_config.width, 640);
    assert!(!renderer.prepare_frame(&materials, &models));
}

#[test]
fn update_present_mode_copies_the_choice() {
    let mut renderer = Renderer::new(640, 480);
    renderer.present_mode = PresentMode::Immediate;
    renderer.update_present_mode();
    assert_eq!(
        renderer.surface_config,
        SurfaceConfiguration { width: 640, height: 480, present_mode: PresentMode::Immediate }
    );
}

#[test]
fn what_follows_a_frame() {
    assert_eq!(handle_frame_outcome(Ok(())), FrameAction::Continue);
    assert_eq!(handle_frame_outcome(Err(SurfaceError::Lost)), FrameAction::Reconfigure);
    assert_eq!(handle_frame_outcome(Err(SurfaceError::Outdated)), FrameAction::Reconfigure);
    assert_eq!(handle_frame_outcome(Err(SurfaceError::OutOfMemory)), FrameAction::Exit);
    assert_eq!(handle_frame_outcome(Err(SurfaceError::Timeout)), FrameAction::SkipFrame);
}

#[test]
fn present_mode_names() {
    assert_eq!(present_mode_to_string(PresentMode::AutoVsync), "Auto Vsync");
    assert_eq!(present_mode_to_string(PresentMode::AutoNoVsync), "Auto No Vsync");
    assert_eq!(present_mode_to_string(PresentMode::Mailbox), "Mailbox");
    assert_eq!(present_mode_to_string(PresentMode::Fifo), "Fifo");
    assert_eq!(present_mode_to_string(PresentMode::FifoRelaxed), "Fifo Relaxed");
    assert_eq!(present_mode_to_string(PresentMode::Immediate), "Immediate");
}

#[test]
fn edge_threshold_names_and_values() {
    assert_eq!(EdgeThresholdMax::Low.label(), "Low");
    assert_eq!(EdgeThresholdMax::Medium.label(), "Medium");
    assert_eq!(EdgeThresholdMax::High.label(), "High");
    assert_eq!(EdgeThresholdMax::Ultra.label(), "Ultra");
    assert_eq!(EdgeThresholdMax::Extreme.label(), "Extreme");
    assert_eq!(EdgeThresholdMin::Low.label(), "Low");
    assert_eq!(EdgeThresholdMin::Medium.label(), "Medium");
    assert_eq!(EdgeThresholdMin::High.label(), "High");
    assert_eq!(EdgeThresholdMin::Ultra.label(), "Ultra");
    assert_eq!(EdgeThresholdMin::Extreme.label(), "Extreme");
    assert_eq!(EdgeThresholdMax::Low.threshold(), 2500);
    assert_eq!(EdgeThresholdMax::Medium.threshold(), 1660);
    assert_eq!(EdgeThresholdMax::High.threshold(), 1250);
    assert_eq!(EdgeThresholdMax::Ultra.threshold(), 630);
    assert_eq!(EdgeThresholdMax::Extreme.threshold(), 310);
    assert_eq!(EdgeThresholdMin::Low.threshold(), 833);
    assert_eq!(EdgeThresholdMin::Medium.threshold(), 625);
    assert_eq!(EdgeThresholdMin::High.threshold(), 312);
    assert_eq!(EdgeThresholdMin::Ultra.threshold(), 156);
    assert_eq!(EdgeThresholdMin::Extreme.threshold(), 78);
}

#[test]
fn fxaa_record_follows_the_settings() {
    let mut record = FXAADetailsUniform::default();
    assert_eq!(record.iterations, 0);
    record.update(&FXAADetails {
        edge_threshold_min: EdgeThresholdMin::Low,
        edge_threshold_max: EdgeThresholdMax::Extreme,
        iterations: 5,
        subpixel_quality: 2500,
    });
    assert_eq!(
        record,
        FXAADetailsUniform {
            edge_threshold_min: 833,
            edge_threshold_max: 310,
            iterations: 5,
            subpixel_quality: 2500,
        }
    );
}

#[test]
fn panels_start_closed_and_open_on_show() {
    let mut a = BlackHoleSettings::new();
    assert!(!a.is_visible());
    a.show();
    assert!(a.is_visible());
    a.set_visible(false);
    assert!(!a.is_visible());
    let mut b = CameraSettings::new();
    assert!(!b.is_visible());
    b.show();
    assert!(b.is_visible());
    let mut c = ModelSettings::new();
    assert!(!c.is_visible());
    c.show();
    assert!(c.is_visible());
    let mut d = RendererSettings::new();
    assert!(!d.is_visible());
    d.show();
    d.show();
    assert!(d.is_visible());
    assert!(!BlackHoleSettings::default().is_visible());
    assert!(!CameraSettings::default().is_visible());
    assert!(!ModelSettings::default().is_visible());
    assert!(!RendererSettings::default().is_visible());
}

#[test]
fn integration_method_names() {
    assert_eq!(integration_method_label(0), "Euler");
    assert_eq!(integration_method_label(1), "Runge Kutta");
    assert_eq!(integration_method_label(2), "");
    assert_eq!(integration_method_label(-1), "");
}

#[test]
fn model_keeps_the_first_characters_of_its_name() {
    let model = Model::new("Lucy");
    assert_eq!(model.ident, vec!['L', 'u', 'c', 'y']);
    assert_eq!(model.position, Vec3::new(-7168, 0, 35840));
    assert_eq!(model.rotation, Vec3::new(0, 0, 0));
    assert_eq!(model.visible, 1);
    assert!(model.points.is_empty() && model.normals.is_empty() && model.triangles.is_empty());
    let long: String = "abcdefghij".repeat(7);
    let mut named = Model::new(&long);
    assert_eq!(named.ident.len(), MAX_IDENT_LENGTH);
    assert_eq!(named.ident.iter().collect::<String>(), &long[..64]);
    named.set_ident("");
    assert!(named.ident.is_empty());
    named.set_ident("ñandú");
    assert_eq!(named.ident, vec!['ñ', 'a', 'n', 'd', 'ú']);
    let exact: String = "x".repeat(64);
    named.set_ident(&exact);
    assert_eq!(named.ident.len(), 64);
    let unnamed: String = Model::default().ident.iter().collect();
    assert_eq!(unnamed, "unnamed");
}

#[test]
fn node_starts_zeroed() {
    let node = Node::new();
    assert_eq!(node.min_corner, Vec3::new(0, 0, 0));
    assert_eq!(node.max_corner, Vec3::new(0, 0, 0));
    assert_eq!(node.left_child, 0);
    assert_eq!(node.obj_count, 0);
    assert_eq!(Node::default(), node);
    assert_eq!(Triangle::default(), Triangle { p1: 0, p2: 0, p3: 0, n1: 0, n2: 0, n3: 0 });
}

#[test]
fn mesh_with_normal_indices() {
    let mut model = Model::new("m");
    model.add_vertex(Vec3::new(9, 9, 9));
    model.add_normal(Vec3::new(1, 0, 0));
    model.add_normal(Vec3::new(0, 1, 0));
    let positions = vec![Vec3::new(0, 0, 0), Vec3::new(4, 0, 0), Vec3::new(0, 4, 0), Vec3::new(4, 4, 0)];
    let normals = vec![Vec3::new(0, 0, 1), Vec3::new(0, 0, -1)];
    let indices = vec![0, 1, 2, 1, 3, 2, 3];
    let normal_indices = vec![0, 0, 0, 1, 1, 0];
    assert_eq!(model.add_mesh(&positions, &normals, &indices, &normal_indices, &vec![]), Ok(()));
    assert_eq!(model.points.len(), 5);
    assert_eq!(model.points[1], Vec3::new(0, 0, 0));
    assert_eq!(model.normals.len(), 4);
    assert_eq!(model.normals[3], Vec3::new(0, 0, -1));
    assert_eq!(
        model.triangles,
        vec![
            Triangle { p1: 1, p2: 2, p3: 3, n1: 2, n2: 2, n3: 2 },
            Triangle { p1: 2, p2: 4, p3: 3, n1: 3, n2: 3, n3: 2 },
        ]
    );
    assert!(model.is_buildable());
    model.build_bvh();
    assert_eq!(model.nodes.len(), 1);
    assert_eq!(model.nodes[0].obj_count, 2);
}

#[test]
fn mesh_with_face_normals() {
    let mut model = Model::new("m");
    model.add_normal(Vec3::new(7, 7, 7));
    let positions = vec![Vec3::new(0, 0, 0), Vec3::new(4, 0, 0), Vec3::new(0, 4, 0), Vec3::new(4, 4, 0)];
    let normals = vec![Vec3::new(0, 0, 1)];
    let indices = vec![0, 1, 2, 1, 3, 2];
    let faces = vec![Vec3::new(0, 0, 1024), Vec3::new(0, 0, -1024), Vec3::new(5, 5, 5)];
    assert_eq!(model.add_mesh(&positions, &normals, &indices, &vec![], &faces), Ok(()));
    assert_eq!(
        model.normals,
        vec![Vec3::new(7, 7, 7), Vec3::new(0, 0, 1), Vec3::new(0, 0, 1024), Vec3::new(0, 0, -1024)]
    );
    assert_eq!(
        model.triangles,
        vec![
            Triangle { p1: 0, p2: 1, p3: 2, n1: 2, n2: 2, n3: 2 },
            Triangle { p1: 1, p2: 3, p3: 2, n1: 3, n2: 3, n3: 3 },
        ]
    );
}

#[test]
fn refused_meshes_leave_the_model_alone() {
    let mut model = Model::new("m");
    model.add_vertex(Vec3::new(9, 9, 9));
    let positions = vec![Vec3::new(0, 0, 0), Vec3::new(4, 0, 0), Vec3::new(0, 4, 0)];
    let normals = vec![Vec3::new(0, 0, 1)];
    assert_eq!(
        model.add_mesh(&positions, &normals, &vec![0, 1, 3], &vec![0, 0, 0], &vec![]),
        Err(MeshError::IndexOutOfRange)
    );
    assert_eq!(
        model.add_mesh(&positions, &normals, &vec![0, 1, 2], &vec![0, 0, 1], &vec![]),
        Err(MeshError::IndexOutOfRange)
    );
    assert_eq!(
        model.add_mesh(&positions, &normals, &vec![0, 1, 2, 0, 1, 2], &vec![0, 0, 0], &vec![]),
        Err(MeshError::MissingNormals)
    );
    assert_eq!(
        model.add_mesh(&positions, &normals, &vec![0, 1, 2], &vec![], &vec![]),
        Err(MeshError::MissingNormals)
    );
    let many = vec![Vec3::new(0, 0, 0); 512_000];
    assert_eq!(
        model.add_mesh(&many, &normals, &vec![0, 1, 2], &vec![0, 0, 0], &vec![]),
        Err(MeshError::TooLarge)
    );
    assert_eq!(
        model.add_mesh(&positions, &many, &vec![0, 1, 2], &vec![], &many),
        Err(MeshError::TooLarge)
    );
    assert_eq!(model.points, vec![Vec3::new(9, 9, 9)]);
    assert!(model.normals.is_empty());
    assert!(model.triangles.is_empty());
    // A mesh without triangles needs no normals.
    assert_eq!(model.add_mesh(&positions, &normals, &vec![0, 1], &vec![], &vec![]), Ok(()));
    assert_eq!(model.points.len(), 4);
    assert!(model.triangles.is_empty());
}

#[test]
fn first_srgb_format_is_chosen() {
    let formats = vec![
        wgpu::TextureFormat::Rgba8Unorm,
        wgpu::TextureFormat::Bgra8UnormSrgb,
        wgpu::TextureFormat::Rgba8UnormSrgb,
    ];
    assert_eq!(srgb_flags(&formats), vec![false, true, true]);
    assert_eq!(choose_surface_format(&formats), 1);
    let plain = vec![wgpu::TextureFormat::Bgra8Unorm, wgpu::TextureFormat::Rgba16Float];
    assert_eq!(srgb_flags(&plain), vec![false, false]);
    assert_eq!(choose_surface_format(&plain), 0);
    assert_eq!(choose_surface_format(&vec![wgpu::TextureFormat::Rgba8UnormSrgb]), 0);
    assert_eq!(first_flagged(&vec![]), 0);
    assert_eq!(first_flagged(&vec![false, false, true, true]), 2);
    assert_eq!(first_flagged(&vec![false, false]), 0);
}
