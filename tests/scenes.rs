use svgpath::{PointType, Style, Svg, Transform, TransformFn};

type Scene = Svg<u32, (i32, i32, i32, i32)>;

fn leaf(items: Vec<u32>, b: i32) -> Scene {
    Svg { items, siblings: vec![], viewbox: (b, b, b, b), style: Style::default(), custom_viewbox: None }
}

fn s(v: &str) -> String {
    v.to_string()
}

#[test]
fn cascade_reaches_every_nested_scene() {
    let tree = leaf(vec![1], 0).and(leaf(vec![2], 1).and(leaf(vec![3], 2))).and(leaf(vec![], 3));
    let tree = tree.with_opacity(s("0.5")).with_color(s("red"));
    let nodes = tree.preorder();
    assert_eq!(nodes.len(), 4);
    for n in &nodes {
        assert_eq!(n.style.to_text(), " opacity=\"0.5\" fill=\"red\" stroke=\"red\"");
    }
    assert_eq!(nodes[2].viewbox, (2, 2, 2, 2));
}

#[test]
fn child_can_override_after_cascade() {
    let child = leaf(vec![2], 1);
    let tree = leaf(vec![1], 0).and(child).with_fill_color(s("red"));
    let Svg { items, siblings, viewbox, style, custom_viewbox } = tree;
    let overridden: Vec<Scene> = siblings.into_iter().map(|c| c.with_fill_color(s("blue"))).collect();
    let tree = Svg { items, siblings: overridden, viewbox, style, custom_viewbox };
    let nodes = tree.preorder();
    assert_eq!(nodes[0].style.fill, Some(s("red")));
    assert_eq!(nodes[1].style.fill, Some(s("blue")));
}

#[test]
fn every_inherited_change_cascades() {
    let tree = leaf(vec![], 0)
        .and(leaf(vec![], 1))
        .with_css_classes(s("c"))
        .with_id(s("i"))
        .with_fill_opacity(s("0.2"))
        .with_stroke_width(s("3"))
        .with_stroke_opacity(s("0.4"))
        .with_stroke_color(s("black"))
        .with_radius(s("5"));
    for n in tree.preorder() {
        assert_eq!(
            n.style.to_text(),
            " fill-opacity=\"0.2\" stroke=\"black\" stroke-width=\"3\" stroke-opacity=\"0.4\" class=\"c\" id=\"i\""
        );
        assert_eq!(n.style.radius, "5");
    }
}

#[test]
fn per_item_changes_stay_on_the_scene() {
    let tree = leaf(vec![], 0)
        .and(leaf(vec![], 1))
        .with_text(Some(s("hi")), Some(s("3")), Some(Transform::new(vec![TransformFn::SkewX(s("2"))])))
        .with_point_type(Some(PointType::Circle))
        .with_icon_svg_path("M 0,0", (0, 0, 24, 24), (12, 12))
        .with_custom_viewbox((9, 9, 9, 9));
    let nodes = tree.preorder();
    assert_eq!(nodes[0].style.text, Some(s("hi")));
    assert_eq!(nodes[0].style.point_type, Some(PointType::Circle));
    assert_eq!(nodes[0].style.icon_svg_path, Some(s("M 0,0")));
    assert_eq!(nodes[0].style.icon_svg_viewbox, Some((0, 0, 24, 24)));
    assert_eq!(nodes[0].style.to_text(), " transform=\"skewX(2)\"");
    assert_eq!(nodes[0].custom_viewbox, Some((9, 9, 9, 9)));
    assert_eq!(nodes[1].style, Style::default());
    assert_eq!(nodes[1].custom_viewbox, None);
}

#[test]
fn with_style_replaces_every_style() {
    let mut st = Style::default();
    st.opacity = Some(s("0.1"));
    let tree = leaf(vec![], 0).and(leaf(vec![], 1).and(leaf(vec![], 2))).with_style(&st);
    for n in tree.preorder() {
        assert_eq!(n.style, st);
    }
}

#[test]
fn preorder_puts_a_scene_before_its_nested_scenes() {
    let tree = leaf(vec![1, 2], 0)
        .and(leaf(vec![3], 1).and(leaf(vec![4], 2)))
        .and(leaf(vec![5], 3));
    let items: Vec<u32> = tree.preorder().iter().flat_map(|n| n.items.clone()).collect();
    assert_eq!(items, vec![1, 2, 3, 4, 5]);
    let boxes: Vec<i32> = tree.preorder().iter().map(|n| n.viewbox.0).collect();
    assert_eq!(boxes, vec![0, 1, 2, 3]);
}
