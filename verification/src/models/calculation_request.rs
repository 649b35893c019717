//! The panels of a calculation request: what to cut, how many, from which
//! material, with which edge banding.
use vstd::prelude::*;
use crate::models::calculation_submission_result::opt_view;
use crate::models::client_info::opt_str_view;
use crate::text::{int_decimal, push_i64, push_str};
use crate::models::client_info::ClientInfo;
use crate::models::configuration::Configuration;

verus! {

/// The material a panel gets when none is given.
pub const DEFAULT_MATERIAL: &'static str = "DEFAULT_MATERIAL";

/// Edge banding of the four sides of a panel.
#[derive(Debug, Clone, PartialEq)]
pub struct Edge {
    pub top: Option<String>,
    pub left: Option<String>,
    pub bottom: Option<String>,
    pub right: Option<String>,
}

/// A panel to cut: dimensions as text, a count, and its properties.
#[derive(Debug, Clone, PartialEq)]
pub struct Panel {
    pub id: i32,
    pub width: String,
    pub height: String,
    pub count: i32,
    pub material: String,
    pub enabled: bool,
    pub orientation: i32,
    pub label: Option<String>,
    pub edge: Option<Edge>,
}

impl Panel {
    /// The text form `[WxH]*N`, followed by `-disabled` for a disabled panel.
    pub open spec fn text_spec(self) -> Seq<char> {
        "["@ + self.width@ + "x"@ + self.height@ + "]*"@ + int_decimal(self.count as int) + (if self.enabled {
            Seq::empty()
        } else {
            "-disabled"@
        })
    }

    pub fn new(
        id: i32,
        width: String,
        height: String,
        count: i32,
        material: String,
        enabled: bool,
        orientation: i32,
        label: Option<String>,
        edge: Option<Edge>,
    ) -> (p: Self)
        ensures
            p == (Panel { id, width, height, count, material, enabled, orientation, label, edge }),
    {
        Panel { id, width, height, count, material, enabled, orientation, label, edge }
    }

    /// An enabled panel of the default material, orientation 0, without
    /// label or edge banding.
    pub fn simple(id: i32, width: String, height: String, count: i32) -> (p: Self)
        ensures
            p.id == id,
            p.width == width,
            p.height == height,
            p.count == count,
            p.material@ == DEFAULT_MATERIAL@,
            p.enabled,
            p.orientation == 0,
            p.label is None,
            p.edge is None,
    {
        Panel {
            id,
            width,
            height,
            count,
            material: String::from_str(DEFAULT_MATERIAL),
            enabled: true,
            orientation: 0,
            label: None,
            edge: None,
        }
    }

    pub fn id(&self) -> (r: i32)
        ensures
            r == self.id,
    {
        self.id
    }

    pub fn width(&self) -> (r: &str)
        ensures
            r@ == self.width@,
    {
        self.width.as_str()
    }

    pub fn height(&self) -> (r: &str)
        ensures
            r@ == self.height@,
    {
        self.height.as_str()
    }

    pub fn count(&self) -> (r: i32)
        ensures
            r == self.count,
    {
        self.count
    }

    pub fn material(&self) -> (r: &str)
        ensures
            r@ == self.material@,
    {
        self.material.as_str()
    }

    pub fn is_enabled(&self) -> (r: bool)
        ensures
            r == self.enabled,
    {
        self.enabled
    }

    pub fn orientation(&self) -> (r: i32)
        ensures
            r == self.orientation,
    {
        self.orientation
    }

    pub fn label(&self) -> (r: Option<&str>)
        ensures
            opt_str_view(r) == opt_view(self.label),
    {
        match &self.label {
            Some(l) => Some(l.as_str()),
            None => None,
        }
    }

    pub fn edge(&self) -> (r: Option<&Edge>)
        ensures
            match r {
                Some(e) => self.edge == Some(*e),
                None => self.edge is None,
            },
    {
        match &self.edge {
            Some(e) => Some(e),
            None => None,
        }
    }

    pub fn set_id(&mut self, id: i32)
        ensures
            *final(self) == (Panel { id, ..*old(self) }),
    {
        self.id = id;
    }

    pub fn set_width(&mut self, width: String)
        ensures
            *final(self) == (Panel { width, ..*old(self) }),
    {
        self.width = width;
    }

    pub fn set_height(&mut self, height: String)
        ensures
            *final(self) == (Panel { height, ..*old(self) }),
    {
        self.height = height;
    }

    pub fn set_count(&mut self, count: i32)
        ensures
            *final(self) == (Panel { count, ..*old(self) }),
    {
        self.count = count;
    }

    pub fn set_enabled(&mut self, enabled: bool)
        ensures
            *final(self) == (Panel { enabled, ..*old(self) }),
    {
        self.enabled = enabled;
    }

    pub fn set_orientation(&mut self, orientation: i32)
        ensures
            *final(self) == (Panel { orientation, ..*old(self) }),
    {
        self.orientation = orientation;
    }

    pub fn set_label(&mut self, label: Option<String>)
        ensures
            *final(self) == (Panel { label, ..*old(self) }),
    {
        self.label = label;
    }

    pub fn set_edge(&mut self, edge: Option<Edge>)
        ensures
            *final(self) == (Panel { edge, ..*old(self) }),
    {
        self.edge = edge;
    }

    /// Replaces the material when one is given; `None` keeps the current one.
    pub fn set_material(&mut self, material: Option<String>)
        ensures
            *final(self) == (match material {
                Some(m) => Panel { material: m, ..*old(self) },
                None => *old(self),
            }),
    {
        if let Some(mat) = material {
            self.material = mat;
        }
    }

    pub fn with_id(self, id: i32) -> (p: Self)
        ensures
            p == (Panel { id: id, ..self }),
    {
        Panel { id: id, ..self }
    }

    pub fn with_width(self, width: String) -> (p: Self)
        ensures
            p == (Panel { width: width, ..self }),
    {
        Panel { width: width, ..self }
    }

    pub fn with_height(self, height: String) -> (p: Self)
        ensures
            p == (Panel { height: height, ..self }),
    {
        Panel { height: height, ..self }
    }

    pub fn with_count(self, count: i32) -> (p: Self)
        ensures
            p == (Panel { count: count, ..self }),
    {
        Panel { count: count, ..self }
    }

    pub fn with_material(self, material: String) -> (p: Self)
        ensures
            p == (Panel { material: material, ..self }),
    {
        Panel { material: material, ..self }
    }

    pub fn with_enabled(self, enabled: bool) -> (p: Self)
        ensures
            p == (Panel { enabled: enabled, ..self }),
    {
        Panel { enabled: enabled, ..self }
    }

    pub fn with_orientation(self, orientation: i32) -> (p: Self)
        ensures
            p == (Panel { orientation: orientation, ..self }),
    {
        Panel { orientation: orientation, ..self }
    }

    pub fn with_label(self, label: String) -> (p: Self)
        ensures
            p == (Panel { label: Some(label), ..self }),
    {
        Panel { label: Some(label), ..self }
    }

    pub fn with_edge(self, edge: Edge) -> (p: Self)
        ensures
            p == (Panel { edge: Some(edge), ..self }),
    {
        Panel { edge: Some(edge), ..self }
    }

    /// The text form (see `text_spec`).
    pub fn to_string(&self) -> (s: String)
        ensures
            s@ == self.text_spec(),
    {
        let mut s = String::from_str("[");
        push_str(&mut s, self.width.as_str());
        push_str(&mut s, "x");
        push_str(&mut s, self.height.as_str());
        push_str(&mut s, "]*");
        push_i64(&mut s, self.count as i64);
        if !self.enabled {
            push_str(&mut s, "-disabled");
        }
        proof {
            assert(s@ =~= self.text_spec());
        }
        s
    }
}

impl Edge {
    /// No banding on any side.
    pub open spec fn empty_spec() -> Edge {
        Edge { top: None, left: None, bottom: None, right: None }
    }

    pub fn new(top: Option<String>, left: Option<String>, bottom: Option<String>, right: Option<String>) -> (e: Self)
        ensures
            e == (Edge { top, left, bottom, right }),
    {
        Edge { top, left, bottom, right }
    }

    pub fn empty() -> (e: Self)
        ensures
            e == Self::empty_spec(),
    {
        Edge { top: None, left: None, bottom: None, right: None }
    }

    pub fn top(&self) -> (r: Option<&str>)
        ensures
            opt_str_view(r) == opt_view(self.top),
    {
        match &self.top {
            Some(s) => Some(s.as_str()),
            None => None,
        }
    }

    pub fn set_top(&mut self, top: Option<String>)
        ensures
            *final(self) == (Edge { top, ..*old(self) }),
    {
        self.top = top;
    }

    pub fn with_top(self, top: String) -> (e: Self)
        ensures
            e == (Edge { top: Some(top), ..self }),
    {
        Edge { top: Some(top), ..self }
    }

    pub fn left(&self) -> (r: Option<&str>)
        ensures
            opt_str_view(r) == opt_view(self.left),
    {
        match &self.left {
            Some(s) => Some(s.as_str()),
            None => None,
        }
    }

    pub fn set_left(&mut self, left: Option<String>)
        ensures
            *final(self) == (Edge { left, ..*old(self) }),
    {
        self.left = left;
    }

    pub fn with_left(self, left: String) -> (e: Self)
        ensures
            e == (Edge { left: Some(left), ..self }),
    {
        Edge { left: Some(left), ..self }
    }

    pub fn bottom(&self) -> (r: Option<&str>)
        ensures
            opt_str_view(r) == opt_view(self.bottom),
    {
        match &self.bottom {
            Some(s) => Some(s.as_str()),
            None => None,
        }
    }

    pub fn set_bottom(&mut self, bottom: Option<String>)
        ensures
            *final(self) == (Edge { bottom, ..*old(self) }),
    {
        self.bottom = bottom;
    }

    pub fn with_bottom(self, bottom: String) -> (e: Self)
        ensures
            e == (Edge { bottom: Some(bottom), ..self }),
    {
        Edge { bottom: Some(bottom), ..self }
    }

    pub fn right(&self) -> (r: Option<&str>)
        ensures
            opt_str_view(r) == opt_view(self.right),
    {
        match &self.right {
            Some(s) => Some(s.as_str()),
            None => None,
        }
    }

    pub fn set_right(&mut self, right: Option<String>)
        ensures
            *final(self) == (Edge { right, ..*old(self) }),
    {
        self.right = right;
    }

    pub fn with_right(self, right: String) -> (e: Self)
        ensures
            e == (Edge { right: Some(right), ..self }),
    {
        Edge { right: Some(right), ..self }
    }

    pub fn has_any_edge(&self) -> (r: bool)
        ensures
            r == (self.top is Some || self.left is Some || self.bottom is Some || self.right is Some),
    {
        self.top.is_some() || self.left.is_some() || self.bottom.is_some() || self.right.is_some()
    }

    pub fn has_all_edges(&self) -> (r: bool)
        ensures
            r == (self.top is Some && self.left is Some && self.bottom is Some && self.right is Some),
    {
        self.top.is_some() && self.left.is_some() && self.bottom.is_some() && self.right.is_some()
    }
}

impl Default for Edge {
    fn default() -> (e: Self)
        ensures
            e == Edge::empty_spec(),
    {
        Self::empty()
    }
}

/// The text of the panels that are to be cut: for each panel with a positive
/// count, in order, a space and its text form.
pub open spec fn tiles_text(panels: Seq<Panel>) -> Seq<char>
    decreases panels.len(),
{
    if panels.len() == 0 {
        Seq::empty()
    } else {
        let last = panels.last();
        tiles_text(panels.drop_last()) + if last.count > 0 {
            " "@ + last.text_spec()
        } else {
            Seq::empty()
        }
    }
}

/// A calculation request: its settings, the panels to cut, the stock panels
/// to cut them from, and who asks.
#[derive(Debug, Clone, PartialEq)]
pub struct CalculationRequest {
    pub configuration: Option<Configuration>,
    pub panels: Vec<Panel>,
    pub stock_panels: Vec<Panel>,
    pub client_info: Option<ClientInfo>,
}

/// The text of a run of panels, as `tiles_text` states it.
fn panels_text(panels: &Vec<Panel>) -> (s: String)
    ensures
        s@ == tiles_text(panels@),
{
    let mut s = String::new();
    let mut i: usize = 0;
    while i < panels.len()
        invariant
            i <= panels.len(),
            s@ == tiles_text(panels@.subrange(0, i as int)),
        decreases panels.len() - i,
    {
        let panel = &panels[i];
        proof {
            assert(panels@.subrange(0, i as int + 1).drop_last() =~= panels@.subrange(0, i as int));
        }
        if panel.count > 0 {
            push_str(&mut s, " ");
            let t = panel.to_string();
            push_str(&mut s, t.as_str());
        }
        i = i + 1;
    }
    proof {
        assert(panels@.subrange(0, panels@.len() as int) =~= panels@);
    }
    s
}

impl CalculationRequest {
    pub fn new() -> (r: Self)
        ensures
            r.configuration is None,
            r.panels@ == Seq::<Panel>::empty(),
            r.stock_panels@ == Seq::<Panel>::empty(),
            r.client_info is None,
    {
        CalculationRequest {
            configuration: None,
            panels: Vec::new(),
            stock_panels: Vec::new(),
            client_info: None,
        }
    }

    pub fn with_values(
        configuration: Option<Configuration>,
        panels: Vec<Panel>,
        stock_panels: Vec<Panel>,
        client_info: Option<ClientInfo>,
    ) -> (r: Self)
        ensures
            r == (CalculationRequest { configuration, panels, stock_panels, client_info }),
    {
        CalculationRequest { configuration, panels, stock_panels, client_info }
    }

    pub fn configuration(&self) -> (r: Option<&Configuration>)
        ensures
            match r {
                Some(c) => self.configuration == Some(*c),
                None => self.configuration is None,
            },
    {
        match &self.configuration {
            Some(c) => Some(c),
            None => None,
        }
    }

    pub fn panels(&self) -> (r: &[Panel])
        ensures
            r@ == self.panels@,
    {
        self.panels.as_slice()
    }

    pub fn stock_panels(&self) -> (r: &[Panel])
        ensures
            r@ == self.stock_panels@,
    {
        self.stock_panels.as_slice()
    }

    pub fn client_info(&self) -> (r: Option<&ClientInfo>)
        ensures
            match r {
                Some(c) => self.client_info == Some(*c),
                None => self.client_info is None,
            },
    {
        match &self.client_info {
            Some(c) => Some(c),
            None => None,
        }
    }

    pub fn set_configuration(&mut self, configuration: Option<Configuration>)
        ensures
            *final(self) == (CalculationRequest { configuration, ..*old(self) }),
    {
        self.configuration = configuration;
    }

    pub fn set_panels(&mut self, panels: Vec<Panel>)
        ensures
            *final(self) == (CalculationRequest { panels, ..*old(self) }),
    {
        self.panels = panels;
    }

    pub fn set_stock_panels(&mut self, stock_panels: Vec<Panel>)
        ensures
            *final(self) == (CalculationRequest { stock_panels, ..*old(self) }),
    {
        self.stock_panels = stock_panels;
    }

    pub fn set_client_info(&mut self, client_info: Option<ClientInfo>)
        ensures
            *final(self) == (CalculationRequest { client_info, ..*old(self) }),
    {
        self.client_info = client_info;
    }

    /// The panels to cut as text: a space and the text form of each panel
    /// whose count is positive, in order.
    pub fn tiles_to_string(&self) -> (s: String)
        ensures
            s@ == tiles_text(self.panels@),
    {
        panels_text(&self.panels)
    }

    /// The stock panels as text, in the form of `tiles_to_string`.
    pub fn base_tiles_to_string(&self) -> (s: String)
        ensures
            s@ == tiles_text(self.stock_panels@),
    {
        panels_text(&self.stock_panels)
    }

    pub fn with_configuration(self, configuration: Configuration) -> (r: Self)
        ensures
            r == (CalculationRequest { configuration: Some(configuration), ..self }),
    {
        CalculationRequest { configuration: Some(configuration), ..self }
    }

    pub fn with_panels(self, panels: Vec<Panel>) -> (r: Self)
        ensures
            r == (CalculationRequest { panels, ..self }),
    {
        CalculationRequest { panels, ..self }
    }

    pub fn with_stock_panels(self, stock_panels: Vec<Panel>) -> (r: Self)
        ensures
            r == (CalculationRequest { stock_panels, ..self }),
    {
        CalculationRequest { stock_panels, ..self }
    }

    pub fn with_client_info(self, client_info: ClientInfo) -> (r: Self)
        ensures
            r == (CalculationRequest { client_info: Some(client_info), ..self }),
    {
        CalculationRequest { client_info: Some(client_info), ..self }
    }

    /// The request with `panel` added after its panels.
    pub fn add_panel(self, panel: Panel) -> (r: Self)
        ensures
            r.panels@ == self.panels@.push(panel),
            r.configuration == self.configuration,
            r.stock_panels == self.stock_panels,
            r.client_info == self.client_info,
    {
        let mut r = self;
        r.panels.push(panel);
        r
    }

    /// The request with `panel` added after its stock panels.
    pub fn add_stock_panel(self, panel: Panel) -> (r: Self)
        ensures
            r.stock_panels@ == self.stock_panels@.push(panel),
            r.configuration == self.configuration,
            r.panels == self.panels,
            r.client_info == self.client_info,
    {
        let mut r = self;
        r.stock_panels.push(panel);
        r
    }
}

impl Default for CalculationRequest {
    fn default() -> (r: Self)
        ensures
            r.configuration is None,
            r.panels@ == Seq::<Panel>::empty(),
            r.stock_panels@ == Seq::<Panel>::empty(),
            r.client_info is None,
    {
        Self::new()
    }
}

} // verus!
