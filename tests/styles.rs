use svgpath::{PointType, Style, StyleChange, Transform, TransformFn};

fn s(v: &str) -> String {
    v.to_string()
}

#[test]
fn default_style_writes_nothing() {
    let st = Style::default();
    assert_eq!(st.to_text(), "");
    assert_eq!(st.radius, "1");
    assert!(st.fill.is_none());
}

#[test]
fn attributes_come_in_fixed_order() {
    let mut st = Style::default();
    st.transform = Some(Transform::new(vec![TransformFn::Translate(s("10"), None)]));
    st.id = Some(s("a"));
    st.css_classes = Some(s("road"));
    st.stroke_opacity = Some(s("0.5"));
    st.stroke_width = Some(s("2"));
    st.stroke_color = Some(s("#000"));
    st.fill_opacity = Some(s("0.3"));
    st.fill = Some(s("red"));
    st.opacity = Some(s("0.9"));
    st.text = Some(s("ignored"));
    assert_eq!(
        st.to_text(),
        " opacity=\"0.9\" fill=\"red\" fill-opacity=\"0.3\" stroke=\"#000\" stroke-width=\"2\" stroke-opacity=\"0.5\" class=\"road\" id=\"a\" transform=\"translate(10)\""
    );
}

#[test]
fn build_order_does_not_change_attributes() {
    let mut a = Style::default();
    a.apply(&StyleChange::Opacity(s("0.5")));
    a.apply(&StyleChange::FillColor(s("blue")));
    a.apply(&StyleChange::Id(s("x")));
    let mut b = Style::default();
    b.apply(&StyleChange::Id(s("x")));
    b.apply(&StyleChange::FillColor(s("blue")));
    b.apply(&StyleChange::Opacity(s("0.5")));
    assert_eq!(a.to_text(), b.to_text());
    assert_eq!(a, b);
    assert_eq!(a.to_text(), " opacity=\"0.5\" fill=\"blue\" id=\"x\"");
}

#[test]
fn last_change_wins() {
    let mut a = Style::default();
    a.apply(&StyleChange::FillColor(s("blue")));
    a.apply(&StyleChange::Color(s("green")));
    assert_eq!(a.to_text(), " fill=\"green\" stroke=\"green\"");
    a.apply(&StyleChange::StrokeColor(s("black")));
    assert_eq!(a.to_text(), " fill=\"green\" stroke=\"black\"");
    a.apply(&StyleChange::Radius(s("4")));
    assert_eq!(a.radius, "4");
}

#[test]
fn whole_change_replaces_style() {
    let mut t = Style::default();
    t.point_type = Some(PointType::Poi);
    t.stroke_width = Some(s("3"));
    let mut a = Style::default();
    a.fill = Some(s("red"));
    a.apply(&StyleChange::Whole(t.clone()));
    assert_eq!(a, t);
    assert_eq!(a.to_text(), " stroke-width=\"3\"");
}

#[test]
fn transform_functions_are_written_in_order() {
    let t = Transform::new(vec![
        TransformFn::Matrix(s("1"), s("0"), s("0"), s("1"), s("5"), s("6")),
        TransformFn::Translate(s("10"), Some(s("20"))),
        TransformFn::Scale(s("2"), None),
        TransformFn::Scale(s("2"), Some(s("3"))),
        TransformFn::Rotate(s("45"), None),
        TransformFn::Rotate(s("45"), Some((s("1"), s("2")))),
        TransformFn::SkewX(s("7")),
        TransformFn::SkewY(s("8")),
    ]);
    assert_eq!(
        t.to_text(),
        "matrix(1, 0, 0, 1, 5, 6)translate(10, 20)scale(2)scale(2, 3)rotate(45)rotate(45, 1, 2)skewX(7)skewY(8)"
    );
    assert_eq!(TransformFn::Translate(s("-1.5"), None).to_text(), "translate(-1.5)");
    assert_eq!(Transform::new(vec![]).to_text(), "");
}
