use fractalium::user_agent::ua_looks_like_ios_family;
use fractalium::export_phase::{export_pipeline_frame, take_for_delivery, ExportFrameOutcome, PreparedResultImageState};
use fractalium::text::trim_text;
use fractalium::app_screen::{initial_app_screen, AppScreen};
use fractalium::export_name::default_export_filename;
use fractalium::export_phase::{
    export_can_start, export_captured, export_frame, export_prepared, ExportPhase,
    EXPORT_WARMUP_FRAMES,
};
use fractalium::fractal_state::{BaseShape, FractalState};
use fractalium::share_link::{
    fragment_shows_readable_body, share_sheet_text, url_without_fragment, DesktopShareNavigator,
    ShareNavigationPort,
};
use fractalium::share_payload::{
    assemble_shared_state, check_share_limits, classify_share_key, collect_share_fields,
    share_fields_of, share_key_name, ShareError, ShareField, ShareKey, MAX_DEPTH, MAX_LINES,
    MAX_REPLICAS,
};

#[test]
fn export_runs_three_warmup_frames() {
    assert!(export_can_start(ExportPhase::Idle));
    assert!(!export_can_start(ExportPhase::Warm(2)));
    assert!(!export_can_start(ExportPhase::Capturing));
    let mut phase = export_prepared();
    assert_eq!(phase, ExportPhase::Warm(EXPORT_WARMUP_FRAMES));
    let mut shots = Vec::new();
    for _ in 0..5 {
        let (next, shoot) = export_frame(phase);
        shots.push(shoot);
        phase = next;
    }
    assert_eq!(shots, vec![false, false, true, false, false]);
    assert_eq!(phase, ExportPhase::Capturing);
    assert_eq!(export_captured(), ExportPhase::Idle);
    assert_eq!(export_frame(ExportPhase::Idle), (ExportPhase::Idle, false));
    assert_eq!(ExportPhase::default(), ExportPhase::Idle);
}

#[test]
fn export_filename_format() {
    assert_eq!(default_export_filename(0), "fractalium-result-0.png");
    assert_eq!(default_export_filename(1718000000123), "fractalium-result-1718000000123.png");
    assert_eq!(
        default_export_filename(u128::MAX),
        format!("fractalium-result-{}.png", u128::MAX)
    );
}

#[test]
fn app_screen_start() {
    assert_eq!(AppScreen::default(), AppScreen::PresetPicker);
    assert_eq!(initial_app_screen(false), AppScreen::PresetPicker);
    assert_eq!(initial_app_screen(true), AppScreen::Editing);
}

#[test]
fn desktop_navigator_builds_copy_link() {
    let nav = DesktopShareNavigator;
    assert_eq!(
        nav.full_share_page_url_with_readable_body("v=1&depth=3"),
        Ok("?from=share#v=1&depth=3".to_string())
    );
    assert_eq!(nav.replace_readable_fragment_body("v=1"), Ok(()));
    assert_eq!(nav.current_fragment_body(), None);
    assert!(!nav.readable_share_equals_current_fragment("v=1"));
}

#[test]
fn url_fragment_helpers() {
    assert_eq!(url_without_fragment("https://x.org/app?from=share#v=1&a=#b"), "https://x.org/app?from=share");
    assert_eq!(url_without_fragment("https://x.org/app"), "https://x.org/app");
    assert_eq!(url_without_fragment("#only"), "");
    assert!(fragment_shows_readable_body(Some("v=1&depth=3"), "v=1&depth=3"));
    assert!(!fragment_shows_readable_body(Some("x=1"), "x=1"));
    assert!(!fragment_shows_readable_body(Some("v=1&depth=3"), "v=1&depth=4"));
    assert!(!fragment_shows_readable_body(None, "v=1"));
}

#[test]
fn share_sheet_text_lines() {
    assert_eq!(share_sheet_text(Some("https://x.org/#v=1")), "\n#fractalium\nhttps://x.org/#v=1");
    assert_eq!(share_sheet_text(None), "\n#fractalium");
}

#[test]
fn share_keys() {
    assert_eq!(classify_share_key("v"), ShareKey::Version);
    assert_eq!(classify_share_key("depth"), ShareKey::Depth);
    assert_eq!(classify_share_key("g"), ShareKey::ShowAllGenerations);
    assert_eq!(classify_share_key("line"), ShareKey::Line);
    assert_eq!(classify_share_key("replica"), ShareKey::Replica);
    assert_eq!(classify_share_key("future_key"), ShareKey::Unknown);
    assert_eq!(classify_share_key("version_extra"), ShareKey::Unknown);
    for k in [ShareKey::Version, ShareKey::Depth, ShareKey::ShowAllGenerations, ShareKey::Line, ShareKey::Replica] {
        assert_eq!(classify_share_key(share_key_name(k).unwrap()), k);
    }
    assert_eq!(share_key_name(ShareKey::Unknown), None);
}

fn st(lines: usize, replicas: usize, depth: u32) -> FractalState<u8, u8> {
    FractalState {
        base_shape: BaseShape { lines: vec![0; lines] },
        replicas: vec![0; replicas],
        depth,
        show_all_generations: false,
    }
}

#[test]
fn share_limits() {
    assert_eq!(check_share_limits(&st(1, 1, 3)), Ok(()));
    assert_eq!(check_share_limits(&st(1, 1, 0)), Err(ShareError::DepthOutOfRange));
    assert_eq!(check_share_limits(&st(1, 1, MAX_DEPTH + 1)), Err(ShareError::DepthOutOfRange));
    assert_eq!(check_share_limits(&st(MAX_LINES + 1, 1, 3)), Err(ShareError::TooManyLines));
    assert_eq!(check_share_limits(&st(1, MAX_REPLICAS + 1, 3)), Err(ShareError::TooManyReplicas));
    assert_eq!(check_share_limits(&st(MAX_LINES, MAX_REPLICAS, MAX_DEPTH)), Ok(()));
}

#[test]
fn assemble_decoded_fields() {
    let ok = assemble_shared_state(Some(1), Some(3), None, vec![1u8, 2], vec![7u8]).unwrap();
    assert_eq!(ok.depth, 3);
    assert!(!ok.show_all_generations);
    assert_eq!(ok.base_shape.lines, vec![1, 2]);
    assert_eq!(ok.replicas, vec![7]);
    let g = assemble_shared_state(Some(1), Some(2), Some(true), Vec::<u8>::new(), Vec::<u8>::new()).unwrap();
    assert!(g.show_all_generations);
    assert_eq!(
        assemble_shared_state(None, Some(3), None, vec![1u8], vec![1u8]).err(),
        Some(ShareError::MissingVersion)
    );
    assert_eq!(
        assemble_shared_state(Some(2), Some(3), None, vec![1u8], vec![1u8]).err(),
        Some(ShareError::UnsupportedVersion(2))
    );
    assert_eq!(
        assemble_shared_state(Some(1), None, None, vec![1u8], vec![1u8]).err(),
        Some(ShareError::MissingDepth)
    );
    assert_eq!(
        assemble_shared_state(Some(1), Some(0), None, vec![1u8], vec![1u8]).err(),
        Some(ShareError::DepthOutOfRange)
    );
}

#[test]
fn prepared_image_is_handed_over_once() {
    let mut st = PreparedResultImageState::Ready { png: vec![1, 2, 3], filename: "a.png".to_string() };
    assert_eq!(st.take_ready(), Some((vec![1, 2, 3], "a.png".to_string())));
    assert!(matches!(st, PreparedResultImageState::Nothing));
    assert_eq!(st.take_ready(), None);
    let mut busy = PreparedResultImageState::Preparing;
    assert_eq!(busy.take_ready(), None);
    assert!(matches!(busy, PreparedResultImageState::Nothing));
    assert!(matches!(PreparedResultImageState::default(), PreparedResultImageState::Nothing));
}

#[test]
fn ios_user_agents() {
    let iphone = "Mozilla/5.0 (iPhone; CPU iPhone OS 17_0 like Mac OS X) AppleWebKit/605.1.15";
    assert!(ua_looks_like_ios_family(iphone, 5));
    assert!(ua_looks_like_ios_family("Mozilla/5.0 (IPAD; CPU OS 16_0)", 0));
    assert!(ua_looks_like_ios_family("... iPod touch ...", 0));
    let mac = "Mozilla/5.0 (Macintosh; Intel Mac OS X 10_15_7) AppleWebKit/605.1.15";
    assert!(ua_looks_like_ios_family(mac, 5));
    assert!(!ua_looks_like_ios_family(mac, 0));
    assert!(!ua_looks_like_ios_family("Mozilla/5.0 (X11; Linux x86_64)", 10));
    assert!(!ua_looks_like_ios_family("", 1));
}

#[test]
fn share_pairs_round_trip() {
    let state = FractalState {
        base_shape: BaseShape { lines: vec![(1u8, 2u8), (3, 4)] },
        replicas: vec![9u16],
        depth: 3,
        show_all_generations: true,
    };
    let fields = share_fields_of(&state).unwrap();
    assert_eq!(fields.len(), 6);
    assert!(matches!(fields[0], ShareField::Version(1)));
    assert!(matches!(fields[1], ShareField::Depth(3)));
    assert!(matches!(fields[2], ShareField::ShowAllGenerations(true)));
    assert!(matches!(fields[3], ShareField::Line((1, 2))));
    assert!(matches!(fields[5], ShareField::Replica(9)));
    let read = collect_share_fields(&fields);
    let back = assemble_shared_state(
        read.version,
        read.depth,
        read.show_all_generations,
        read.lines,
        read.replicas,
    )
    .unwrap();
    assert_eq!(back.depth, 3);
    assert!(back.show_all_generations);
    assert_eq!(back.base_shape.lines, vec![(1, 2), (3, 4)]);
    assert_eq!(back.replicas, vec![9]);
}

#[test]
fn share_pairs_skip_unknown_keys_and_keep_the_last_value() {
    let fields: Vec<ShareField<u8, u8>> = vec![
        ShareField::Version(1),
        ShareField::Unknown,
        ShareField::Depth(2),
        ShareField::Line(5),
        ShareField::Depth(7),
        ShareField::Unknown,
        ShareField::Line(6),
    ];
    let read = collect_share_fields(&fields);
    assert_eq!(read.version, Some(1));
    assert_eq!(read.depth, Some(7));
    assert_eq!(read.show_all_generations, None);
    assert_eq!(read.lines, vec![5, 6]);
    assert!(read.replicas.is_empty());
    let none: Vec<ShareField<u8, u8>> = vec![];
    let read = collect_share_fields(&none);
    assert_eq!(read.version, None);
    assert_eq!(read.depth, None);
}

#[test]
fn share_pairs_refuse_states_over_the_limits() {
    assert!(matches!(share_fields_of(&st(1, MAX_REPLICAS + 1, 3)), Err(ShareError::TooManyReplicas)));
    assert!(matches!(share_fields_of(&st(1, 1, 0)), Err(ShareError::DepthOutOfRange)));
    assert!(matches!(share_fields_of(&st(MAX_LINES + 1, 1, 2)), Err(ShareError::TooManyLines)));
}

#[test]
fn delivery_trims_the_share_text_and_resets_the_state() {
    assert_eq!(trim_text("  a b \n"), "a b");
    assert_eq!(trim_text("\u{3000}x\u{a0}"), "x");
    assert_eq!(trim_text(" \t "), "");
    let mut st = PreparedResultImageState::Ready { png: vec![7], filename: "f.png".to_string() };
    let got = take_for_delivery(&mut st, Some("\n#fractalium\nhttp://x "));
    assert_eq!(got, Some((vec![7], "f.png".to_string(), Some("#fractalium\nhttp://x"))));
    assert!(matches!(st, PreparedResultImageState::Nothing));
    let mut st = PreparedResultImageState::Ready { png: vec![7], filename: "f.png".to_string() };
    assert_eq!(take_for_delivery(&mut st, Some("   ")), Some((vec![7], "f.png".to_string(), None)));
    let mut busy = PreparedResultImageState::Preparing;
    assert_eq!(take_for_delivery(&mut busy, Some("x")), None);
    assert!(matches!(busy, PreparedResultImageState::Nothing));
}

#[test]
fn export_pipeline_frames() {
    let mut phase = ExportPhase::Idle;
    let mut prepared = PreparedResultImageState::Nothing;
    // no request: nothing happens
    let none = ExportFrameOutcome { start_prep: false, take_screenshot: false, refused: 0 };
    assert_eq!(export_pipeline_frame(&mut phase, &mut prepared, 0, true), none);
    // one request starts the export
    let o = export_pipeline_frame(&mut phase, &mut prepared, 1, true);
    assert_eq!(o, ExportFrameOutcome { start_prep: true, take_screenshot: false, refused: 0 });
    assert_eq!(phase, ExportPhase::Warm(3));
    assert!(matches!(prepared, PreparedResultImageState::Preparing));
    // requests while busy are dropped; the third frame takes the screenshot
    assert_eq!(export_pipeline_frame(&mut phase, &mut prepared, 2, true), none);
    assert_eq!(export_pipeline_frame(&mut phase, &mut prepared, 0, true), none);
    let shot = export_pipeline_frame(&mut phase, &mut prepared, 0, true);
    assert!(shot.take_screenshot);
    assert_eq!(phase, ExportPhase::Capturing);
    assert!(matches!(prepared, PreparedResultImageState::Preparing));
    assert_eq!(export_pipeline_frame(&mut phase, &mut prepared, 1, true), none);
    // two requests in one idle frame: the second is refused and nothing stays prepared
    let mut phase = ExportPhase::Idle;
    let o = export_pipeline_frame(&mut phase, &mut prepared, 2, true);
    assert_eq!(o, ExportFrameOutcome { start_prep: true, take_screenshot: false, refused: 1 });
    assert!(matches!(prepared, PreparedResultImageState::Nothing));
    // missing resources: nothing starts
    let mut phase = ExportPhase::Idle;
    assert_eq!(export_pipeline_frame(&mut phase, &mut prepared, 1, false), none);
    assert_eq!(phase, ExportPhase::Idle);
}
