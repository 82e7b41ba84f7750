use softrender::skybox::Skybox;

#[test]
fn stars_fill_count_and_bounds() {
    let sky = Skybox::new(10, 8, 50);
    assert_eq!(sky.stars.len(), 50);
    for &(x, y, color, bright) in &sky.stars {
        assert!(x < 10);
        assert!(y < 8);
        assert!(color <= 0xFFFFFF);
        if bright {
            assert!(color > 0xCCCCCC);
        }
    }
}

#[test]
fn plots_stay_inside_buffer() {
    let sky = Skybox::new(10, 8, 200);
    let plots = sky.render(10, 8);
    assert!(!plots.is_empty());
    for &(x, y, color) in &plots {
        assert!(x < 10);
        assert!(y < 8);
        assert!(color <= 0xFFFFFF);
    }
}

#[test]
fn rendering_into_smaller_buffer_drops_outside_stars() {
    let sky = Skybox::new(100, 100, 300);
    let plots = sky.render(5, 5);
    for &(x, y, _) in &plots {
        assert!(x < 5);
        assert!(y < 5);
    }
}

#[test]
fn bright_stars_plot_a_cross() {
    // With many stars over a tiny buffer, the plot list is at least as long
    // as the star count that landed inside; bright ones add neighbors.
    let sky = Skybox::new(50, 50, 500);
    let plots = sky.render(50, 50);
    let inside = sky.stars.iter().filter(|s| s.0 < 50 && s.1 < 50).count();
    assert!(plots.len() >= inside);
}
