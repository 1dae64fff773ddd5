use fractalium::fractal_presets::FractalPreset;
use fractalium::seed_preset::{cycle_edges, pentagram_edges, BaseShapePreset};

#[test]
fn base_shape_labels() {
    assert_eq!(BaseShapePreset::Segment.label(), "Segment");
    assert_eq!(BaseShapePreset::Star.label(), "Star (pentagram)");
    assert_eq!(BaseShapePreset::LShape.label(), "L-shape");
    assert_eq!(BaseShapePreset::ALL.len(), 7);
    assert_eq!(BaseShapePreset::ALL[2], BaseShapePreset::Square);
}

#[test]
fn cycle_edges_closes_polygon() {
    let v = [10, 20, 30, 40];
    let e = cycle_edges(&v);
    assert_eq!(e, vec![(10, 20), (20, 30), (30, 40), (40, 10)]);
    // the last segment ends where the first starts
    assert_eq!(e[3].1, e[0].0);
    assert!(cycle_edges(&[1]).is_empty());
    assert!(cycle_edges::<u8>(&[]).is_empty());
    assert_eq!(cycle_edges(&[1, 2]), vec![(1, 2), (2, 1)]);
}

#[test]
fn pentagram_joins_every_second_vertex() {
    let e = pentagram_edges(&['a', 'b', 'c', 'd', 'e']);
    assert_eq!(e, vec![('a', 'c'), ('c', 'e'), ('e', 'b'), ('b', 'd'), ('d', 'a')]);
    assert!(pentagram_edges(&[1, 2, 3, 4]).is_empty());
}

#[test]
fn fractal_preset_labels() {
    assert_eq!(FractalPreset::KochCurve.label(), "Koch curve");
    assert_eq!(FractalPreset::HeighwayDragon.label(), "Dragon curve");
    assert_eq!(FractalPreset::LevyCCurve.label(), "Lévy C curve");
    assert_eq!(FractalPreset::ALL.len(), 11);
}

#[test]
fn boot_token_short_names() {
    assert_eq!(FractalPreset::from_boot_token("pythagoras"), Some(FractalPreset::PythagorasTree));
    assert_eq!(FractalPreset::from_boot_token(" Pythagoras-Tree "), Some(FractalPreset::PythagorasTree));
    assert_eq!(FractalPreset::from_boot_token("DRAGON"), Some(FractalPreset::HeighwayDragon));
    assert_eq!(FractalPreset::from_boot_token("heighway_dragon"), Some(FractalPreset::HeighwayDragon));
    assert_eq!(FractalPreset::from_boot_token("Heighway"), Some(FractalPreset::HeighwayDragon));
}

#[test]
fn boot_token_matches_label_keys() {
    assert_eq!(FractalPreset::from_boot_token("Koch curve"), Some(FractalPreset::KochCurve));
    assert_eq!(FractalPreset::from_boot_token("kochcurve"), Some(FractalPreset::KochCurve));
    // non-ASCII letters are dropped from the key
    assert_eq!(FractalPreset::from_boot_token("sierpiskitriangle"), Some(FractalPreset::SierpinskiTriangle));
    assert_eq!(FractalPreset::from_boot_token("Lévy C curve"), Some(FractalPreset::LevyCCurve));
    assert_eq!(FractalPreset::from_boot_token("vicsek fractal cross"), Some(FractalPreset::Vicsek));
    assert_eq!(FractalPreset::from_boot_token("sierpinskitriangle"), None);
    assert_eq!(FractalPreset::from_boot_token("koch"), None);
    assert_eq!(FractalPreset::from_boot_token(""), None);
}

#[test]
fn every_label_names_its_preset() {
    for &p in FractalPreset::ALL.iter() {
        assert_eq!(FractalPreset::from_boot_token(p.label()), Some(p));
    }
}
