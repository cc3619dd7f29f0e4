use vstd::prelude::*;

verus! {

/// How a point-like item is drawn.
#[derive(Clone, Copy, Debug, PartialEq, Eq, Structural)]
pub enum PointType {
    Circle,
    Symbol,
    Text,
    Poi,
}

/// One function of a transform list. Each number is held as the decimal text it is
/// written with.
#[derive(Debug, Clone, PartialEq)]
pub enum TransformFn {
    Matrix(String, String, String, String, String, String),
    Translate(String, Option<String>),
    Scale(String, Option<String>),
    Rotate(String, Option<(String, String)>),
    SkewX(String),
    SkewY(String),
}

/// An ordered list of transform functions.
#[derive(Debug, Clone, PartialEq)]
pub struct Transform {
    pub transform_functions: Vec<TransformFn>,
}

/// `name(a, b, ...)` for a function name and its arguments.
pub open spec fn call_text(name: Seq<char>, args: Seq<Seq<char>>) -> Seq<char> {
    name + seq!['('] + joined(args) + seq![')']
}

/// The arguments separated by `, `.
pub open spec fn joined(args: Seq<Seq<char>>) -> Seq<char>
    decreases args.len(),
{
    if args.len() == 0 {
        Seq::empty()
    } else if args.len() == 1 {
        args[0]
    } else {
        joined(args.drop_last()) + seq![',', ' '] + args.last()
    }
}

pub open spec fn transform_fn_text(f: TransformFn) -> Seq<char> {
    match f {
        TransformFn::Matrix(a, b, c, d, e, g) => call_text(
            seq!['m', 'a', 't', 'r', 'i', 'x'],
            seq![a@, b@, c@, d@, e@, g@],
        ),
        TransformFn::Translate(x, y) => match y {
            Some(y) => call_text(seq!['t', 'r', 'a', 'n', 's', 'l', 'a', 't', 'e'], seq![x@, y@]),
            None => call_text(seq!['t', 'r', 'a', 'n', 's', 'l', 'a', 't', 'e'], seq![x@]),
        },
        TransformFn::Scale(x, y) => match y {
            Some(y) => call_text(seq!['s', 'c', 'a', 'l', 'e'], seq![x@, y@]),
            None => call_text(seq!['s', 'c', 'a', 'l', 'e'], seq![x@]),
        },
        TransformFn::Rotate(r, p) => match p {
            Some((x, y)) => call_text(seq!['r', 'o', 't', 'a', 't', 'e'], seq![r@, x@, y@]),
            None => call_text(seq!['r', 'o', 't', 'a', 't', 'e'], seq![r@]),
        },
        TransformFn::SkewX(a) => call_text(seq!['s', 'k', 'e', 'w', 'X'], seq![a@]),
        TransformFn::SkewY(a) => call_text(seq!['s', 'k', 'e', 'w', 'Y'], seq![a@]),
    }
}

/// The functions' texts, concatenated with no separator.
pub open spec fn transform_fns_text(fs: Seq<TransformFn>) -> Seq<char>
    decreases fs.len(),
{
    if fs.len() == 0 {
        Seq::empty()
    } else {
        transform_fns_text(fs.drop_last()) + transform_fn_text(fs.last())
    }
}

pub open spec fn transform_text(t: Transform) -> Seq<char> {
    transform_fns_text(t.transform_functions@)
}

fn push_args(s: &mut String, args: &Vec<&String>)
    requires
        args.len() >= 1,
    ensures
        final(s)@ == old(s)@ + joined(args@.map_values(|a: &String| a@)),
{
    proof {
        reveal_strlit(", ");
    }
    let ghost views = args@.map_values(|a: &String| a@);
    s.append(args[0].as_str());
    let mut i: usize = 1;
    assert(views.take(1) =~= seq![views[0]]);
    assert(joined(views.take(1)) == views[0]);
    while i < args.len()
        invariant
            1 <= i <= args.len(),
            views == args@.map_values(|a: &String| a@),
            s@ == old(s)@ + joined(views.take(i as int)),
        decreases args.len() - i,
    {
        proof {
            reveal_strlit(", ");
        }
        s.append(", ");
        s.append(args[i].as_str());
        proof {
            assert(views.take(i + 1).drop_last() =~= views.take(i as int));
            assert(s@ =~= old(s)@ + joined(views.take(i + 1)));
        }
        i = i + 1;
    }
    assert(views.take(args.len() as int) =~= views);
}

fn push_call(s: &mut String, name: &str, args: &Vec<&String>)
    requires
        args.len() >= 1,
    ensures
        final(s)@ == old(s)@ + call_text(name@, args@.map_values(|a: &String| a@)),
{
    proof {
        reveal_strlit("(");
        reveal_strlit(")");
    }
    s.append(name);
    s.append("(");
    push_args(s, args);
    s.append(")");
    proof {
        assert(final(s)@ =~= old(s)@ + call_text(name@, args@.map_values(|a: &String| a@)));
    }
}

impl TransformFn {
    /// Appends the text of this function to `s`.
    pub fn push_text(&self, s: &mut String)
        ensures
            final(s)@ == old(s)@ + transform_fn_text(*self),
    {
        proof {
            reveal_strlit("matrix");
            reveal_strlit("translate");
            reveal_strlit("scale");
            reveal_strlit("rotate");
            reveal_strlit("skewX");
            reveal_strlit("skewY");
        }
        match self {
            TransformFn::Matrix(a, b, c, d, e, g) => {
                let args = vec![a, b, c, d, e, g];
                push_call(s, "matrix", &args);
                assert(args@.map_values(|a: &String| a@) =~= seq![a@, b@, c@, d@, e@, g@]);
            },
            TransformFn::Translate(x, y) => match y {
                Some(y) => {
                    let args = vec![x, y];
                    push_call(s, "translate", &args);
                    assert(args@.map_values(|a: &String| a@) =~= seq![x@, y@]);
                },
                None => {
                    let args = vec![x];
                    push_call(s, "translate", &args);
                    assert(args@.map_values(|a: &String| a@) =~= seq![x@]);
                },
            },
            TransformFn::Scale(x, y) => match y {
                Some(y) => {
                    let args = vec![x, y];
                    push_call(s, "scale", &args);
                    assert(args@.map_values(|a: &String| a@) =~= seq![x@, y@]);
                },
                None => {
                    let args = vec![x];
                    push_call(s, "scale", &args);
                    assert(args@.map_values(|a: &String| a@) =~= seq![x@]);
                },
            },
            TransformFn::Rotate(r, p) => match p {
                Some((x, y)) => {
                    let args = vec![r, x, y];
                    push_call(s, "rotate", &args);
                    assert(args@.map_values(|a: &String| a@) =~= seq![r@, x@, y@]);
                },
                None => {
                    let args = vec![r];
                    push_call(s, "rotate", &args);
                    assert(args@.map_values(|a: &String| a@) =~= seq![r@]);
                },
            },
            TransformFn::SkewX(a) => {
                let args = vec![a];
                push_call(s, "skewX", &args);
                assert(args@.map_values(|a: &String| a@) =~= seq![a@]);
            },
            TransformFn::SkewY(a) => {
                let args = vec![a];
                push_call(s, "skewY", &args);
                assert(args@.map_values(|a: &String| a@) =~= seq![a@]);
            },
        }
    }

    /// The text of this function, such as `translate(10, 20)`.
    pub fn to_text(&self) -> (r: String)
        ensures
            r@ == transform_fn_text(*self),
    {
        let mut s = String::new();
        self.push_text(&mut s);
        assert(s@ =~= transform_fn_text(*self));
        s
    }
}

impl TransformFn {
    /// A copy of this function.
    pub fn duplicate(&self) -> (r: TransformFn)
        ensures
            r == *self,
    {
        match self {
            TransformFn::Matrix(a, b, c, d, e, g) => TransformFn::Matrix(
                a.clone(),
                b.clone(),
                c.clone(),
                d.clone(),
                e.clone(),
                g.clone(),
            ),
            TransformFn::Translate(x, y) => TransformFn::Translate(x.clone(), copy_text(y)),
            TransformFn::Scale(x, y) => TransformFn::Scale(x.clone(), copy_text(y)),
            TransformFn::Rotate(r, p) => {
                let q = match p {
                    Some((x, y)) => Some((x.clone(), y.clone())),
                    None => None,
                };
                TransformFn::Rotate(r.clone(), q)
            },
            TransformFn::SkewX(a) => TransformFn::SkewX(a.clone()),
            TransformFn::SkewY(a) => TransformFn::SkewY(a.clone()),
        }
    }
}

/// A copy of an optional text.
fn copy_text(t: &Option<String>) -> (r: Option<String>)
    ensures
        r == *t,
{
    match t {
        Some(s) => Some(s.clone()),
        None => None,
    }
}

impl Transform {
    pub fn new(transform_functions: Vec<TransformFn>) -> (r: Transform)
        ensures
            r.transform_functions == transform_functions,
    {
        Transform { transform_functions }
    }

    /// The transform list's text: each function's text, with no separator.
    pub fn to_text(&self) -> (r: String)
        ensures
            r@ == transform_text(*self),
    {
        let mut s = String::new();
        let fs = &self.transform_functions;
        let mut i: usize = 0;
        while i < fs.len()
            invariant
                i <= fs.len(),
                fs == &self.transform_functions,
                s@ == transform_fns_text(fs@.take(i as int)),
            decreases fs.len() - i,
        {
            fs[i].push_text(&mut s);
            proof {
                assert(fs@.take(i + 1).drop_last() =~= fs@.take(i as int));
            }
            i = i + 1;
        }
        assert(fs@.take(fs.len() as int) =~= fs@);
        s
    }

    /// A copy of this transform, with the same functions in the same order.
    pub fn duplicate(&self) -> (r: Transform)
        ensures
            r.transform_functions@ == self.transform_functions@,
    {
        let mut fs: Vec<TransformFn> = Vec::new();
        let mut i: usize = 0;
        while i < self.transform_functions.len()
            invariant
                i <= self.transform_functions.len(),
                fs@ == self.transform_functions@.take(i as int),
            decreases self.transform_functions.len() - i,
        {
            fs.push(self.transform_functions[i].duplicate());
            proof {
                assert(fs@ =~= self.transform_functions@.take(i + 1));
            }
            i = i + 1;
        }
        assert(fs@ =~= self.transform_functions@);
        Transform { transform_functions: fs }
    }
}

/// What is known of the appearance at a place in a scene. Every attribute but the radius
/// is optional; an absent one is inherited or left out, never taken as zero. Numbers and
/// colours are held as the text they are written with.
#[derive(Debug, Clone, PartialEq)]
pub struct Style {
    pub opacity: Option<String>,
    pub fill: Option<String>,
    pub fill_opacity: Option<String>,
    pub stroke_color: Option<String>,
    pub stroke_width: Option<String>,
    pub stroke_opacity: Option<String>,
    pub radius: String,
    pub css_classes: Option<String>,
    pub id: Option<String>,
    pub point_type: Option<PointType>,
    pub icon_svg_path: Option<String>,
    pub icon_svg_viewbox: Option<(i32, i32, i32, i32)>,
    pub icon_svg_width_height: Option<(i32, i32)>,
    pub text: Option<String>,
    pub text_start_offset: Option<String>,
    pub transform: Option<Transform>,
}

/// The transform's functions, or none.
pub open spec fn transform_fns(t: Option<Transform>) -> Option<Seq<TransformFn>> {
    match t {
        Some(t) => Some(t.transform_functions@),
        None => None,
    }
}

/// Two styles that hold the same values; a transform counts by its list of functions.
pub open spec fn same_style(a: Style, b: Style) -> bool {
    &&& a.opacity == b.opacity
    &&& a.fill == b.fill
    &&& a.fill_opacity == b.fill_opacity
    &&& a.stroke_color == b.stroke_color
    &&& a.stroke_width == b.stroke_width
    &&& a.stroke_opacity == b.stroke_opacity
    &&& a.radius == b.radius
    &&& a.css_classes == b.css_classes
    &&& a.id == b.id
    &&& a.point_type == b.point_type
    &&& a.icon_svg_path == b.icon_svg_path
    &&& a.icon_svg_viewbox == b.icon_svg_viewbox
    &&& a.icon_svg_width_height == b.icon_svg_width_height
    &&& a.text == b.text
    &&& a.text_start_offset == b.text_start_offset
    &&& transform_fns(a.transform) == transform_fns(b.transform)
}

/// ` name="value"` when the value is present, nothing otherwise.
pub open spec fn attr_text(name: Seq<char>, v: Option<Seq<char>>) -> Seq<char> {
    match v {
        Some(v) => seq![' '] + name + seq!['=', '"'] + v + seq!['"'],
        None => Seq::empty(),
    }
}

pub open spec fn text_of(v: Option<String>) -> Option<Seq<char>> {
    match v {
        Some(s) => Some(s@),
        None => None,
    }
}

pub open spec fn transform_text_of(t: Option<Seq<TransformFn>>) -> Option<Seq<char>> {
    match t {
        Some(fs) => Some(transform_fns_text(fs)),
        None => None,
    }
}

/// The style's attributes in their fixed order: opacity, fill, fill-opacity, stroke,
/// stroke-width, stroke-opacity, class, id, transform.
pub open spec fn style_attributes(s: Style) -> Seq<char> {
    attr_text(seq!['o', 'p', 'a', 'c', 'i', 't', 'y'], text_of(s.opacity))
        + attr_text(seq!['f', 'i', 'l', 'l'], text_of(s.fill))
        + attr_text(seq!['f', 'i', 'l', 'l', '-', 'o', 'p', 'a', 'c', 'i', 't', 'y'], text_of(s.fill_opacity))
        + attr_text(seq!['s', 't', 'r', 'o', 'k', 'e'], text_of(s.stroke_color))
        + attr_text(seq!['s', 't', 'r', 'o', 'k', 'e', '-', 'w', 'i', 'd', 't', 'h'], text_of(s.stroke_width))
        + attr_text(
            seq!['s', 't', 'r', 'o', 'k', 'e', '-', 'o', 'p', 'a', 'c', 'i', 't', 'y'],
            text_of(s.stroke_opacity),
        )
        + attr_text(seq!['c', 'l', 'a', 's', 's'], text_of(s.css_classes))
        + attr_text(seq!['i', 'd'], text_of(s.id))
        + attr_text(
            seq!['t', 'r', 'a', 'n', 's', 'f', 'o', 'r', 'm'],
            transform_text_of(transform_fns(s.transform)),
        )
}

fn push_attr(s: &mut String, name: &str, v: &Option<String>)
    ensures
        final(s)@ == old(s)@ + attr_text(name@, text_of(*v)),
{
    proof {
        reveal_strlit(" ");
        reveal_strlit("=\"");
        reveal_strlit("\"");
    }
    match v {
        Some(t) => {
            s.append(" ");
            s.append(name);
            s.append("=\"");
            s.append(t.as_str());
            s.append("\"");
            assert(s@ =~= old(s)@ + attr_text(name@, text_of(*v)));
        },
        None => {
            assert(s@ =~= old(s)@ + attr_text(name@, text_of(*v)));
        },
    }
}

impl Default for Style {
    /// A style with every optional attribute absent and a radius of `1`.
    fn default() -> (r: Style)
        ensures
            r.opacity.is_none(),
            r.fill.is_none(),
            r.fill_opacity.is_none(),
            r.stroke_color.is_none(),
            r.stroke_width.is_none(),
            r.stroke_opacity.is_none(),
            r.radius@ == seq!['1'],
            r.css_classes.is_none(),
            r.id.is_none(),
            r.point_type.is_none(),
            r.icon_svg_path.is_none(),
            r.icon_svg_viewbox.is_none(),
            r.icon_svg_width_height.is_none(),
            r.text.is_none(),
            r.text_start_offset.is_none(),
            r.transform.is_none(),
    {
        proof {
            reveal_strlit("1");
        }
        Style {
            opacity: None,
            fill: None,
            fill_opacity: None,
            stroke_color: None,
            stroke_width: None,
            stroke_opacity: None,
            radius: String::from_str("1"),
            css_classes: None,
            id: None,
            point_type: None,
            icon_svg_path: None,
            icon_svg_viewbox: None,
            icon_svg_width_height: None,
            text: None,
            text_start_offset: None,
            transform: None,
        }
    }
}

impl Style {
    /// The style's attributes as they are written into an element: each present one as
    /// ` name="value"`, in a fixed order that does not depend on how the style was built.
    pub fn to_text(&self) -> (r: String)
        ensures
            r@ == style_attributes(*self),
    {
        proof {
            reveal_strlit("opacity");
            reveal_strlit("fill");
            reveal_strlit("fill-opacity");
            reveal_strlit("stroke");
            reveal_strlit("stroke-width");
            reveal_strlit("stroke-opacity");
            reveal_strlit("class");
            reveal_strlit("id");
            reveal_strlit("transform");
        }
        let mut s = String::new();
        push_attr(&mut s, "opacity", &self.opacity);
        push_attr(&mut s, "fill", &self.fill);
        push_attr(&mut s, "fill-opacity", &self.fill_opacity);
        push_attr(&mut s, "stroke", &self.stroke_color);
        push_attr(&mut s, "stroke-width", &self.stroke_width);
        push_attr(&mut s, "stroke-opacity", &self.stroke_opacity);
        push_attr(&mut s, "class", &self.css_classes);
        push_attr(&mut s, "id", &self.id);
        let t = match &self.transform {
            Some(t) => Some(t.to_text()),
            None => None,
        };
        push_attr(&mut s, "transform", &t);
        proof {
            assert("opacity"@ =~= seq!['o', 'p', 'a', 'c', 'i', 't', 'y']);
            assert("fill"@ =~= seq!['f', 'i', 'l', 'l']);
            assert("fill-opacity"@ =~= seq!['f', 'i', 'l', 'l', '-', 'o', 'p', 'a', 'c', 'i', 't', 'y']);
            assert("stroke"@ =~= seq!['s', 't', 'r', 'o', 'k', 'e']);
            assert("stroke-width"@ =~= seq!['s', 't', 'r', 'o', 'k', 'e', '-', 'w', 'i', 'd', 't', 'h']);
            assert("stroke-opacity"@ =~= seq!['s', 't', 'r', 'o', 'k', 'e', '-', 'o', 'p', 'a', 'c', 'i', 't', 'y']);
            assert("class"@ =~= seq!['c', 'l', 'a', 's', 's']);
            assert("id"@ =~= seq!['i', 'd']);
            assert("transform"@ =~= seq!['t', 'r', 'a', 'n', 's', 'f', 'o', 'r', 'm']);
            assert(text_of(t) == transform_text_of(transform_fns(self.transform)));
            assert(s@ =~= style_attributes(*self));
        }
        s
    }

    /// A copy of this style.
    pub fn duplicate(&self) -> (r: Style)
        ensures
            same_style(r, *self),
    {
        Style {
            opacity: copy_text(&self.opacity),
            fill: copy_text(&self.fill),
            fill_opacity: copy_text(&self.fill_opacity),
            stroke_color: copy_text(&self.stroke_color),
            stroke_width: copy_text(&self.stroke_width),
            stroke_opacity: copy_text(&self.stroke_opacity),
            radius: self.radius.clone(),
            css_classes: copy_text(&self.css_classes),
            id: copy_text(&self.id),
            point_type: self.point_type,
            icon_svg_path: copy_text(&self.icon_svg_path),
            icon_svg_viewbox: self.icon_svg_viewbox,
            icon_svg_width_height: self.icon_svg_width_height,
            text: copy_text(&self.text),
            text_start_offset: copy_text(&self.text_start_offset),
            transform: match &self.transform {
                Some(t) => Some(t.duplicate()),
                None => None,
            },
        }
    }
}

/// Styles that agree on the nine written attributes write the same text, whatever else
/// they hold and in whatever order they were built.
pub proof fn lemma_attributes_follow_fields(a: Style, b: Style)
    requires
        a.opacity == b.opacity,
        a.fill == b.fill,
        a.fill_opacity == b.fill_opacity,
        a.stroke_color == b.stroke_color,
        a.stroke_width == b.stroke_width,
        a.stroke_opacity == b.stroke_opacity,
        a.css_classes == b.css_classes,
        a.id == b.id,
        transform_fns(a.transform) == transform_fns(b.transform),
    ensures
        style_attributes(a) == style_attributes(b),
{
}

/// A change of style that a scene applies to itself and to every scene nested in it.
#[derive(Debug, Clone, PartialEq)]
pub enum StyleChange {
    Whole(Style),
    Color(String),
    CssClasses(String),
    Id(String),
    Opacity(String),
    FillColor(String),
    FillOpacity(String),
    StrokeWidth(String),
    StrokeOpacity(String),
    StrokeColor(String),
    Radius(String),
}

/// Whether the change sets the attribute numbered `f`, counting the written attributes in
/// their fixed order (0 opacity, 1 fill, 2 fill-opacity, 3 stroke, 4 stroke-width,
/// 5 stroke-opacity, 6 class, 7 id) and 8 for the radius.
pub open spec fn sets_field(c: StyleChange, f: nat) -> bool {
    match c {
        StyleChange::Whole(_) => f <= 8,
        StyleChange::Color(_) => f == 1 || f == 3,
        StyleChange::CssClasses(_) => f == 6,
        StyleChange::Id(_) => f == 7,
        StyleChange::Opacity(_) => f == 0,
        StyleChange::FillColor(_) => f == 1,
        StyleChange::FillOpacity(_) => f == 2,
        StyleChange::StrokeWidth(_) => f == 4,
        StyleChange::StrokeOpacity(_) => f == 5,
        StyleChange::StrokeColor(_) => f == 3,
        StyleChange::Radius(_) => f == 8,
    }
}

/// The text that a change other than `Whole` writes.
pub open spec fn change_value(c: StyleChange) -> String {
    match c {
        StyleChange::Whole(t) => t.radius,
        StyleChange::Color(v) => v,
        StyleChange::CssClasses(v) => v,
        StyleChange::Id(v) => v,
        StyleChange::Opacity(v) => v,
        StyleChange::FillColor(v) => v,
        StyleChange::FillOpacity(v) => v,
        StyleChange::StrokeWidth(v) => v,
        StyleChange::StrokeOpacity(v) => v,
        StyleChange::StrokeColor(v) => v,
        StyleChange::Radius(v) => v,
    }
}

/// The optional attribute numbered `f` after the change: its new value where the change
/// sets it, the old one otherwise.
pub open spec fn picked(old: Option<String>, c: StyleChange, f: nat) -> Option<String> {
    if sets_field(c, f) {
        Some(change_value(c))
    } else {
        old
    }
}

/// The style after a change: `Whole` replaces it, any other change sets the attributes
/// it names and keeps every other one.
pub open spec fn changed(s: Style, c: StyleChange) -> Style {
    match c {
        StyleChange::Whole(t) => t,
        _ => Style {
            opacity: picked(s.opacity, c, 0),
            fill: picked(s.fill, c, 1),
            fill_opacity: picked(s.fill_opacity, c, 2),
            stroke_color: picked(s.stroke_color, c, 3),
            stroke_width: picked(s.stroke_width, c, 4),
            stroke_opacity: picked(s.stroke_opacity, c, 5),
            css_classes: picked(s.css_classes, c, 6),
            id: picked(s.id, c, 7),
            radius: if sets_field(c, 8) { change_value(c) } else { s.radius },
            ..s
        },
    }
}

/// `b` is the style `a` becomes under the change `c`.
pub open spec fn style_after(a: Style, c: StyleChange, b: Style) -> bool {
    same_style(b, changed(a, c))
}

impl Style {
    /// Applies the change `c` to this style.
    pub fn apply(&mut self, c: &StyleChange)
        ensures
            style_after(*old(self), *c, *final(self)),
    {
        match c {
            StyleChange::Whole(t) => {
                *self = t.duplicate();
            },
            StyleChange::Color(v) => {
                self.fill = Some(v.clone());
                self.stroke_color = Some(v.clone());
            },
            StyleChange::CssClasses(v) => {
                self.css_classes = Some(v.clone());
            },
            StyleChange::Id(v) => {
                self.id = Some(v.clone());
            },
            StyleChange::Opacity(v) => {
                self.opacity = Some(v.clone());
            },
            StyleChange::FillColor(v) => {
                self.fill = Some(v.clone());
            },
            StyleChange::FillOpacity(v) => {
                self.fill_opacity = Some(v.clone());
            },
            StyleChange::StrokeWidth(v) => {
                self.stroke_width = Some(v.clone());
            },
            StyleChange::StrokeOpacity(v) => {
                self.stroke_opacity = Some(v.clone());
            },
            StyleChange::StrokeColor(v) => {
                self.stroke_color = Some(v.clone());
            },
            StyleChange::Radius(v) => {
                self.radius = v.clone();
            },
        }
    }
}

proof fn lemma_sets_some_field(c: StyleChange)
    ensures
        sets_field(c, 0) || sets_field(c, 1) || sets_field(c, 2) || sets_field(c, 3)
            || sets_field(c, 4) || sets_field(c, 5) || sets_field(c, 6) || sets_field(c, 7)
            || sets_field(c, 8),
{
}

/// Two changes that set no attribute in common give the same style in either order, and
/// so the same written attributes.
pub proof fn lemma_disjoint_changes_commute(s: Style, c1: StyleChange, c2: StyleChange)
    requires
        forall|f: nat| !(#[trigger] sets_field(c1, f) && sets_field(c2, f)),
    ensures
        changed(changed(s, c1), c2) == changed(changed(s, c2), c1),
        style_attributes(changed(changed(s, c1), c2)) == style_attributes(
            changed(changed(s, c2), c1),
        ),
{
    lemma_sets_some_field(c1);
    lemma_sets_some_field(c2);
    assert(!(c1 is Whole) && !(c2 is Whole));
    assert(!(sets_field(c1, 0) && sets_field(c2, 0)));
    assert(!(sets_field(c1, 1) && sets_field(c2, 1)));
    assert(!(sets_field(c1, 2) && sets_field(c2, 2)));
    assert(!(sets_field(c1, 3) && sets_field(c2, 3)));
    assert(!(sets_field(c1, 4) && sets_field(c2, 4)));
    assert(!(sets_field(c1, 5) && sets_field(c2, 5)));
    assert(!(sets_field(c1, 6) && sets_field(c2, 6)));
    assert(!(sets_field(c1, 7) && sets_field(c2, 7)));
    assert(!(sets_field(c1, 8) && sets_field(c2, 8)));
}

/// A change that sets every attribute an earlier change set overrides it: the earlier
/// change leaves no trace.
pub proof fn lemma_last_change_wins(s: Style, c1: StyleChange, c2: StyleChange)
    requires
        !(c1 is Whole),
        !(c2 is Whole),
        forall|f: nat| #[trigger] sets_field(c1, f) ==> sets_field(c2, f),
    ensures
        changed(changed(s, c1), c2) == changed(s, c2),
{
    assert(sets_field(c1, 0) ==> sets_field(c2, 0));
    assert(sets_field(c1, 1) ==> sets_field(c2, 1));
    assert(sets_field(c1, 2) ==> sets_field(c2, 2));
    assert(sets_field(c1, 3) ==> sets_field(c2, 3));
    assert(sets_field(c1, 4) ==> sets_field(c2, 4));
    assert(sets_field(c1, 5) ==> sets_field(c2, 5));
    assert(sets_field(c1, 6) ==> sets_field(c2, 6));
    assert(sets_field(c1, 7) ==> sets_field(c2, 7));
    assert(sets_field(c1, 8) ==> sets_field(c2, 8));
}

/// The attribute numbered `f` as `sets_field` counts them; 8 and above is the radius.
pub open spec fn field_text(s: Style, f: nat) -> Option<String> {
    if f == 0 {
        s.opacity
    } else if f == 1 {
        s.fill
    } else if f == 2 {
        s.fill_opacity
    } else if f == 3 {
        s.stroke_color
    } else if f == 4 {
        s.stroke_width
    } else if f == 5 {
        s.stroke_opacity
    } else if f == 6 {
        s.css_classes
    } else if f == 7 {
        s.id
    } else {
        Some(s.radius)
    }
}

/// The style holds the value of the change `c` in every attribute that `c` sets.
pub open spec fn carries(s: Style, c: StyleChange) -> bool {
    forall|f: nat| #[trigger] sets_field(c, f) ==> field_text(s, f) == Some(change_value(c))
}

/// A style after a change other than `Whole` carries that change.
pub proof fn lemma_after_carries(a: Style, c: StyleChange, b: Style)
    requires
        style_after(a, c, b),
        !(c is Whole),
    ensures
        carries(b, c),
{
    assert forall|f: nat| #[trigger] sets_field(c, f) implies field_text(b, f) == Some(
        change_value(c),
    ) by {
        assert(f <= 8);
    }
}

} // verus!
