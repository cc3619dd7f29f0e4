use vstd::prelude::*;
use crate::style::{Style, StyleChange, PointType, style_after, same_style, carries,
    lemma_after_carries};

verus! {

/// A scene: drawable items, the scenes nested in it, a base box, a style, and a box that,
/// once set, frames the scene in place of the one computed from its contents. `I` is the
/// handle by which an item is reached and `V` the box type; neither is read here.
#[derive(Debug)]
pub struct Svg<I, V> {
    pub items: Vec<I>,
    pub siblings: Vec<Svg<I, V>>,
    pub viewbox: V,
    pub style: Style,
    pub custom_viewbox: Option<V>,
}

/// `b` is the scene `a` becomes when the change `c` is applied to it and to every scene
/// nested in it: items, boxes and the shape of the tree stay as they were.
pub open spec fn cascaded<I, V>(a: Svg<I, V>, b: Svg<I, V>, c: StyleChange) -> bool
    decreases a, 0nat,
{
    &&& b.items == a.items
    &&& b.viewbox == a.viewbox
    &&& b.custom_viewbox == a.custom_viewbox
    &&& style_after(a.style, c, b.style)
    &&& b.siblings@.len() == a.siblings@.len()
    &&& all_cascaded(a.siblings@, b.siblings@, c, a.siblings@.len())
}

/// The first `k` scenes of `bs` are those of `as_` under the change `c`.
pub open spec fn all_cascaded<I, V>(
    as_: Seq<Svg<I, V>>,
    bs: Seq<Svg<I, V>>,
    c: StyleChange,
    k: nat,
) -> bool
    decreases as_, k,
{
    if k == 0 || k > as_.len() {
        true
    } else {
        all_cascaded(as_, bs, c, (k - 1) as nat) && cascaded(as_[k - 1], bs[k - 1], c)
    }
}

/// The scene and every scene nested in it, in pre-order: a scene comes before the scenes
/// nested in it, and nested scenes come in their order.
pub open spec fn nodes<I, V>(s: Svg<I, V>) -> Seq<Svg<I, V>>
    decreases s, 0nat,
{
    seq![s] + forest_nodes(s.siblings@, s.siblings@.len())
}

/// The pre-order nodes of the first `k` scenes of `xs`, one scene after the other.
pub open spec fn forest_nodes<I, V>(xs: Seq<Svg<I, V>>, k: nat) -> Seq<Svg<I, V>>
    decreases xs, k,
{
    if k == 0 || k > xs.len() {
        Seq::empty()
    } else {
        forest_nodes(xs, (k - 1) as nat) + nodes(xs[k - 1])
    }
}

proof fn lemma_all_cascaded_prefix<I, V>(
    as_: Seq<Svg<I, V>>,
    bs: Seq<Svg<I, V>>,
    cs: Seq<Svg<I, V>>,
    c: StyleChange,
    k: nat,
)
    requires
        all_cascaded(as_, bs, c, k),
        k <= bs.len(),
        k <= cs.len(),
        forall|j: int| 0 <= j < k ==> bs[j] == cs[j],
    ensures
        all_cascaded(as_, cs, c, k),
    decreases k,
{
    if k > 0 && k <= as_.len() {
        lemma_all_cascaded_prefix(as_, bs, cs, c, (k - 1) as nat);
    }
}

impl<I, V> Svg<I, V> {
    /// Applies `c` to this scene's style and, recursively, to every nested scene.
    pub fn cascade(self, c: &StyleChange) -> (r: Svg<I, V>)
        ensures
            cascaded(self, r, *c),
        decreases self,
    {
        let ghost a = self;
        let Svg { items, siblings, viewbox, mut style, custom_viewbox } = self;
        style.apply(c);
        let ghost old_sibs = siblings@;
        let mut rest = siblings;
        let mut done: Vec<Svg<I, V>> = Vec::new();
        while rest.len() > 0
            invariant
                old_sibs == a.siblings@,
                a == self,
                done.len() + rest.len() == old_sibs.len(),
                rest@ == old_sibs.skip(done.len() as int),
                all_cascaded(old_sibs, done@, *c, done.len() as nat),
            decreases rest.len(),
        {
            let k = done.len();
            let child = rest.remove(0);
            proof {
                assert(child == old_sibs[k as int]);
                assert(decreases_to!(self => self.siblings));
                assert(decreases_to!(self.siblings => self.siblings@));
                assert(decreases_to!(self.siblings@ => self.siblings@[k as int]));
            }
            let next = child.cascade(c);
            let ghost before = done@;
            done.push(next);
            proof {
                assert(rest@ =~= old_sibs.skip(done.len() as int));
                lemma_all_cascaded_prefix(old_sibs, before, done@, *c, k as nat);
            }
        }
        Svg { items, siblings: done, viewbox, style, custom_viewbox }
    }

    /// Nests `sibling` in this scene, after the scenes nested so far.
    pub fn and(self, sibling: Svg<I, V>) -> (r: Svg<I, V>)
        ensures
            r.items == self.items,
            r.siblings@ == self.siblings@.push(sibling),
            r.viewbox == self.viewbox,
            r.style == self.style,
            r.custom_viewbox == self.custom_viewbox,
    {
        let mut s = self;
        s.siblings.push(sibling);
        s
    }

    /// Gives this scene and every nested scene a copy of `style`.
    pub fn with_style(self, style: &Style) -> (r: Svg<I, V>)
        ensures
            cascaded(self, r, StyleChange::Whole(*style)),
    {
        let c = StyleChange::Whole(style.duplicate());
        let r = self.cascade(&c);
        proof {
            lemma_cascaded_same_whole(self, r, c, *style);
        }
        r
    }

    /// Sets the fill and the stroke colour here and in every nested scene.
    pub fn with_color(self, color: String) -> (r: Svg<I, V>)
        ensures
            cascaded(self, r, StyleChange::Color(color)),
    {
        self.cascade(&StyleChange::Color(color))
    }

    /// Sets the CSS classes here and in every nested scene.
    pub fn with_css_classes(self, css_classes: String) -> (r: Svg<I, V>)
        ensures
            cascaded(self, r, StyleChange::CssClasses(css_classes)),
    {
        self.cascade(&StyleChange::CssClasses(css_classes))
    }

    /// Sets the id here and in every nested scene.
    pub fn with_id(self, id: String) -> (r: Svg<I, V>)
        ensures
            cascaded(self, r, StyleChange::Id(id)),
    {
        self.cascade(&StyleChange::Id(id))
    }

    /// Sets the opacity here and in every nested scene.
    pub fn with_opacity(self, opacity: String) -> (r: Svg<I, V>)
        ensures
            cascaded(self, r, StyleChange::Opacity(opacity)),
    {
        self.cascade(&StyleChange::Opacity(opacity))
    }

    /// Sets the fill colour here and in every nested scene.
    pub fn with_fill_color(self, fill: String) -> (r: Svg<I, V>)
        ensures
            cascaded(self, r, StyleChange::FillColor(fill)),
    {
        self.cascade(&StyleChange::FillColor(fill))
    }

    /// Sets the fill opacity here and in every nested scene.
    pub fn with_fill_opacity(self, fill_opacity: String) -> (r: Svg<I, V>)
        ensures
            cascaded(self, r, StyleChange::FillOpacity(fill_opacity)),
    {
        self.cascade(&StyleChange::FillOpacity(fill_opacity))
    }

    /// Sets the stroke width here and in every nested scene.
    pub fn with_stroke_width(self, stroke_width: String) -> (r: Svg<I, V>)
        ensures
            cascaded(self, r, StyleChange::StrokeWidth(stroke_width)),
    {
        self.cascade(&StyleChange::StrokeWidth(stroke_width))
    }

    /// Sets the stroke opacity here and in every nested scene.
    pub fn with_stroke_opacity(self, stroke_opacity: String) -> (r: Svg<I, V>)
        ensures
            cascaded(self, r, StyleChange::StrokeOpacity(stroke_opacity)),
    {
        self.cascade(&StyleChange::StrokeOpacity(stroke_opacity))
    }

    /// Sets the stroke colour here and in every nested scene.
    pub fn with_stroke_color(self, stroke_color: String) -> (r: Svg<I, V>)
        ensures
            cascaded(self, r, StyleChange::StrokeColor(stroke_color)),
    {
        self.cascade(&StyleChange::StrokeColor(stroke_color))
    }

    /// Sets the radius here and in every nested scene.
    pub fn with_radius(self, radius: String) -> (r: Svg<I, V>)
        ensures
            cascaded(self, r, StyleChange::Radius(radius)),
    {
        self.cascade(&StyleChange::Radius(radius))
    }

    /// Sets the text, its start offset and its transform of this scene only.
    pub fn with_text(
        self,
        text: Option<String>,
        start_offset: Option<String>,
        transform: Option<crate::style::Transform>,
    ) -> (r: Svg<I, V>)
        ensures
            r.items == self.items,
            r.siblings == self.siblings,
            r.viewbox == self.viewbox,
            r.custom_viewbox == self.custom_viewbox,
            r.style == (Style { text, text_start_offset: start_offset, transform, ..self.style }),
    {
        let mut s = self;
        s.style.text = text;
        s.style.text_start_offset = start_offset;
        s.style.transform = transform;
        s
    }

    /// Sets the icon of this scene only: its path data, its box and its size.
    pub fn with_icon_svg_path(
        self,
        path: &str,
        view_box: (i32, i32, i32, i32),
        width_height: (i32, i32),
    ) -> (r: Svg<I, V>)
        ensures
            r.items == self.items,
            r.siblings == self.siblings,
            r.viewbox == self.viewbox,
            r.custom_viewbox == self.custom_viewbox,
            r.style.icon_svg_path.is_some(),
            r.style.icon_svg_path.unwrap()@ == path@,
            r.style == (Style {
                icon_svg_path: r.style.icon_svg_path,
                icon_svg_viewbox: Some(view_box),
                icon_svg_width_height: Some(width_height),
                ..self.style
            }),
    {
        let mut s = self;
        s.style.icon_svg_path = Some(String::from_str(path));
        s.style.icon_svg_viewbox = Some(view_box);
        s.style.icon_svg_width_height = Some(width_height);
        s
    }

    /// Sets how points are drawn in this scene only.
    pub fn with_point_type(self, point_type: Option<PointType>) -> (r: Svg<I, V>)
        ensures
            r == (Svg { style: Style { point_type, ..self.style }, ..self }),
    {
        let mut s = self;
        s.style.point_type = point_type;
        s
    }

    /// Frames this scene with `viewbox`, whatever its contents cover.
    pub fn with_custom_viewbox(self, viewbox: V) -> (r: Svg<I, V>)
        ensures
            r == (Svg { custom_viewbox: Some(viewbox), ..self }),
    {
        let mut s = self;
        s.custom_viewbox = Some(viewbox);
        s
    }
}

proof fn lemma_cascaded_same_whole<I, V>(a: Svg<I, V>, b: Svg<I, V>, c: StyleChange, t: Style)
    requires
        cascaded(a, b, c),
        c is Whole,
        same_style(c->Whole_0, t),
    ensures
        cascaded(a, b, StyleChange::Whole(t)),
    decreases a, 0nat,
{
    lemma_all_cascaded_same_whole(a.siblings@, b.siblings@, c, t, a.siblings@.len());
}

proof fn lemma_all_cascaded_same_whole<I, V>(
    as_: Seq<Svg<I, V>>,
    bs: Seq<Svg<I, V>>,
    c: StyleChange,
    t: Style,
    k: nat,
)
    requires
        all_cascaded(as_, bs, c, k),
        c is Whole,
        same_style(c->Whole_0, t),
    ensures
        all_cascaded(as_, bs, StyleChange::Whole(t), k),
    decreases as_, k,
{
    if k > 0 && k <= as_.len() {
        lemma_all_cascaded_same_whole(as_, bs, c, t, (k - 1) as nat);
        lemma_cascaded_same_whole(as_[k - 1], bs[k - 1], c, t);
    }
}

/// The scenes that `rs` refers to.
pub open spec fn deref_all<I, V>(rs: Seq<&Svg<I, V>>) -> Seq<Svg<I, V>> {
    rs.map_values(|r: &Svg<I, V>| *r)
}

fn push_nodes<'a, I, V>(s: &'a Svg<I, V>, out: &mut Vec<&'a Svg<I, V>>)
    ensures
        deref_all(final(out)@) == deref_all(old(out)@) + nodes(*s),
    decreases s,
{
    out.push(s);
    proof {
        assert(deref_all(out@) =~= deref_all(old(out)@) + seq![*s]);
    }
    let mut i: usize = 0;
    while i < s.siblings.len()
        invariant
            i <= s.siblings.len(),
            deref_all(out@) == deref_all(old(out)@) + seq![*s] + forest_nodes(
                s.siblings@,
                i as nat,
            ),
        decreases s.siblings.len() - i,
    {
        proof {
            assert(decreases_to!(s => s.siblings));
            assert(decreases_to!(s.siblings => s.siblings@));
            assert(decreases_to!(s.siblings@ => s.siblings@[i as int]));
        }
        let ghost before = deref_all(out@);
        push_nodes(&s.siblings[i], out);
        proof {
            assert(forest_nodes(s.siblings@, (i + 1) as nat) == forest_nodes(s.siblings@, i as nat)
                + nodes(s.siblings@[i as int]));
            assert(deref_all(out@) =~= deref_all(old(out)@) + seq![*s] + forest_nodes(
                s.siblings@,
                (i + 1) as nat,
            ));
        }
        i = i + 1;
    }
    proof {
        assert(deref_all(final(out)@) =~= deref_all(old(out)@) + nodes(*s));
    }
}

impl<I, V> Svg<I, V> {
    /// This scene and every scene nested in it, in pre-order. Rendering a scene writes,
    /// for each scene of this list in turn, each of its items with that scene's style; its
    /// computed box is the union of the base box and the items' boxes of every scene here.
    pub fn preorder(&self) -> (r: Vec<&Svg<I, V>>)
        ensures
            deref_all(r@) == nodes(*self),
    {
        let mut out: Vec<&Svg<I, V>> = Vec::new();
        push_nodes(self, &mut out);
        proof {
            assert(deref_all(Seq::<&Svg<I, V>>::empty()) =~= Seq::<Svg<I, V>>::empty());
            assert(Seq::<Svg<I, V>>::empty() + nodes(*self) =~= nodes(*self));
        }
        out
    }
}

/// A change other than `Whole`, cascaded from a scene, reaches every scene nested in it:
/// the tree keeps its size, and each of its scenes holds the change's value in every
/// attribute that the change sets.
pub proof fn lemma_cascade_reaches_every_scene<I, V>(a: Svg<I, V>, b: Svg<I, V>, c: StyleChange)
    requires
        cascaded(a, b, c),
        !(c is Whole),
    ensures
        nodes(b).len() == nodes(a).len(),
        forall|j: int| 0 <= j < nodes(b).len() ==> carries(#[trigger] nodes(b)[j].style, c),
    decreases a, 0nat,
{
    lemma_after_carries(a.style, c, b.style);
    lemma_forest_reaches(a.siblings@, b.siblings@, c, a.siblings@.len());
    let rest = forest_nodes(b.siblings@, b.siblings@.len());
    assert forall|j: int| 0 <= j < nodes(b).len() implies carries(#[trigger] nodes(b)[j].style, c) by {
        if j > 0 {
            assert(nodes(b)[j] == rest[j - 1]);
        }
    }
}

proof fn lemma_forest_reaches<I, V>(
    as_: Seq<Svg<I, V>>,
    bs: Seq<Svg<I, V>>,
    c: StyleChange,
    k: nat,
)
    requires
        all_cascaded(as_, bs, c, k),
        as_.len() == bs.len(),
        k <= as_.len(),
        !(c is Whole),
    ensures
        forest_nodes(bs, k).len() == forest_nodes(as_, k).len(),
        forall|j: int|
            0 <= j < forest_nodes(bs, k).len() ==> carries(#[trigger] forest_nodes(bs, k)[j].style, c),
    decreases as_, k,
{
    if k > 0 {
        lemma_forest_reaches(as_, bs, c, (k - 1) as nat);
        lemma_cascade_reaches_every_scene(as_[k - 1], bs[k - 1], c);
        let front = forest_nodes(bs, (k - 1) as nat);
        let last = nodes(bs[k - 1]);
        assert forall|j: int| 0 <= j < forest_nodes(bs, k).len() implies carries(
            #[trigger] forest_nodes(bs, k)[j].style,
            c,
        ) by {
            if j < front.len() {
                assert(forest_nodes(bs, k)[j] == front[j]);
            } else {
                assert(forest_nodes(bs, k)[j] == last[j - front.len()]);
            }
        }
    }
}

} // verus!
