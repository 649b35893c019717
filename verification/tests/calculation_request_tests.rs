use cutlist_optimizer::models::calculation_request::{CalculationRequest, Edge, Panel};
use cutlist_optimizer::models::client_info::ClientInfo;
use cutlist_optimizer::models::configuration::Configuration;
use cutlist_optimizer::models::edge::Edge as ResponseEdge;

#[test]
fn test_panel_new() {
    let edge = Edge::new(
        Some("top".to_string()),
        Some("left".to_string()),
        Some("bottom".to_string()),
        Some("right".to_string()),
    );
    let panel = Panel::new(
        1,
        "100".to_string(),
        "200".to_string(),
        5,
        "Wood".to_string(),
        true,
        1,
        Some("Test Panel".to_string()),
        Some(edge),
    );
    assert_eq!(panel.id(), 1);
    assert_eq!(panel.width(), "100");
    assert_eq!(panel.height(), "200");
    assert_eq!(panel.count(), 5);
    assert_eq!(panel.material(), "Wood");
    assert!(panel.is_enabled());
    assert_eq!(panel.orientation(), 1);
    assert_eq!(panel.label(), Some("Test Panel"));
    assert!(panel.edge().is_some());
}

#[test]
fn test_panel_simple() {
    let panel = Panel::simple(1, "100".to_string(), "200".to_string(), 5);
    assert_eq!(panel.id(), 1);
    assert_eq!(panel.width(), "100");
    assert_eq!(panel.height(), "200");
    assert_eq!(panel.count(), 5);
    assert_eq!(panel.material(), "DEFAULT_MATERIAL");
    assert!(panel.is_enabled());
    assert_eq!(panel.orientation(), 0);
    assert!(panel.label().is_none());
    assert!(panel.edge().is_none());
}

#[test]
fn test_panel_setters() {
    let mut panel = Panel::simple(1, "100".to_string(), "200".to_string(), 5);
    let edge = Edge::empty();
    panel.set_id(2);
    panel.set_width("150".to_string());
    panel.set_height("250".to_string());
    panel.set_count(10);
    panel.set_material(Some("Metal".to_string()));
    panel.set_enabled(false);
    panel.set_orientation(2);
    panel.set_label(Some("Updated Panel".to_string()));
    panel.set_edge(Some(edge));
    assert_eq!(panel.id(), 2);
    assert_eq!(panel.width(), "150");
    assert_eq!(panel.height(), "250");
    assert_eq!(panel.count(), 10);
    assert_eq!(panel.material(), "Metal");
    assert!(!panel.is_enabled());
    assert_eq!(panel.orientation(), 2);
    assert_eq!(panel.label(), Some("Updated Panel"));
    assert!(panel.edge().is_some());
}

#[test]
fn test_panel_set_material_none() {
    let mut panel = Panel::simple(1, "100".to_string(), "200".to_string(), 5);
    let original_material = panel.material().to_string();
    panel.set_material(None);
    assert_eq!(panel.material(), original_material);
}

#[test]
fn test_panel_builder_pattern() {
    let edge = Edge::empty();
    let panel = Panel::simple(1, "100".to_string(), "200".to_string(), 5)
        .with_id(10)
        .with_width("150".to_string())
        .with_height("250".to_string())
        .with_count(8)
        .with_material("Glass".to_string())
        .with_enabled(false)
        .with_orientation(3)
        .with_label("Builder Panel".to_string())
        .with_edge(edge);
    assert_eq!(panel.id(), 10);
    assert_eq!(panel.width(), "150");
    assert_eq!(panel.height(), "250");
    assert_eq!(panel.count(), 8);
    assert_eq!(panel.material(), "Glass");
    assert!(!panel.is_enabled());
    assert_eq!(panel.orientation(), 3);
    assert_eq!(panel.label(), Some("Builder Panel"));
    assert!(panel.edge().is_some());
}

#[test]
fn test_panel_display() {
    let enabled_panel = Panel::simple(1, "100".to_string(), "200".to_string(), 5);
    assert_eq!(enabled_panel.to_string(), "[100x200]*5");
    let disabled_panel = Panel::simple(1, "100".to_string(), "200".to_string(), 5).with_enabled(false);
    assert_eq!(disabled_panel.to_string(), "[100x200]*5-disabled");
}

#[test]
fn test_edge_new() {
    let edge = Edge::new(
        Some("top".to_string()),
        Some("left".to_string()),
        Some("bottom".to_string()),
        Some("right".to_string()),
    );
    assert_eq!(edge.top(), Some("top"));
    assert_eq!(edge.left(), Some("left"));
    assert_eq!(edge.bottom(), Some("bottom"));
    assert_eq!(edge.right(), Some("right"));
}

#[test]
fn test_edge_empty() {
    let edge = Edge::empty();
    assert_eq!(edge.top(), None);
    assert_eq!(edge.left(), None);
    assert_eq!(edge.bottom(), None);
    assert_eq!(edge.right(), None);
}

#[test]
fn test_edge_setters() {
    let mut edge = Edge::empty();
    edge.set_top(Some("new_top".to_string()));
    edge.set_left(Some("new_left".to_string()));
    edge.set_bottom(Some("new_bottom".to_string()));
    edge.set_right(Some("new_right".to_string()));
    assert_eq!(edge.top(), Some("new_top"));
    assert_eq!(edge.left(), Some("new_left"));
    assert_eq!(edge.bottom(), Some("new_bottom"));
    assert_eq!(edge.right(), Some("new_right"));
}

#[test]
fn test_edge_builder_pattern() {
    let edge = Edge::empty()
        .with_top("builder_top".to_string())
        .with_left("builder_left".to_string())
        .with_bottom("builder_bottom".to_string())
        .with_right("builder_right".to_string());
    assert_eq!(edge.top(), Some("builder_top"));
    assert_eq!(edge.left(), Some("builder_left"));
    assert_eq!(edge.bottom(), Some("builder_bottom"));
    assert_eq!(edge.right(), Some("builder_right"));
}

#[test]
fn test_edge_has_any_edge() {
    let empty_edge = Edge::empty();
    assert!(!empty_edge.has_any_edge());
    let partial_edge = Edge::empty().with_top("top".to_string());
    assert!(partial_edge.has_any_edge());
    let full_edge = Edge::new(
        Some("top".to_string()),
        Some("left".to_string()),
        Some("bottom".to_string()),
        Some("right".to_string()),
    );
    assert!(full_edge.has_any_edge());
}

#[test]
fn test_edge_has_all_edges() {
    let empty_edge = Edge::empty();
    assert!(!empty_edge.has_all_edges());
    let partial_edge = Edge::empty().with_top("top".to_string()).with_left("left".to_string());
    assert!(!partial_edge.has_all_edges());
    let full_edge = Edge::new(
        Some("top".to_string()),
        Some("left".to_string()),
        Some("bottom".to_string()),
        Some("right".to_string()),
    );
    assert!(full_edge.has_all_edges());
}

#[test]
fn calculation_request_tests_test_edge_default() {
    let edge = Edge::default();
    assert!(!edge.has_any_edge());
    assert_eq!(edge.top(), None);
    assert_eq!(edge.left(), None);
    assert_eq!(edge.bottom(), None);
    assert_eq!(edge.right(), None);
}

#[test]
fn test_panel_equality() {
    let panel1 = Panel::simple(1, "100".to_string(), "200".to_string(), 5);
    let panel2 = Panel::simple(1, "100".to_string(), "200".to_string(), 5);
    let panel3 = Panel::simple(2, "100".to_string(), "200".to_string(), 5);
    assert_eq!(panel1, panel2);
    assert_ne!(panel1, panel3);
}

#[test]
fn test_edge_equality() {
    let edge1 = Edge::new(Some("top".to_string()), Some("left".to_string()), None, None);
    let edge2 = Edge::new(Some("top".to_string()), Some("left".to_string()), None, None);
    let edge3 = Edge::new(Some("top".to_string()), Some("right".to_string()), None, None);
    assert_eq!(edge1, edge2);
    assert_ne!(edge1, edge3);
}

#[test]
fn calculation_response_tests_test_edge_default() {
    let edge = ResponseEdge::default();
    assert!(edge.top.is_none());
    assert!(edge.left.is_none());
    assert!(edge.bottom.is_none());
    assert!(edge.right.is_none());
}

#[test]
fn response_edge_uniform_and_queries() {
    let edge = ResponseEdge::uniform("pvc".to_string());
    assert_eq!(edge.top, Some("pvc".to_string()));
    assert_eq!(edge.right, Some("pvc".to_string()));
    assert!(edge.has_all_edges());
    assert!(edge.has_any_edge());
    let empty = ResponseEdge::new();
    assert!(!empty.has_any_edge());
    assert!(!empty.has_all_edges());
}

#[test]
fn panel_display_uses_raw_text() {
    let panel = Panel::simple(7, "12.5".to_string(), "abc".to_string(), -3);
    assert_eq!(panel.to_string(), "[12.5xabc]*-3");
}

#[test]
fn test_calculation_request_new() {
    let request = CalculationRequest::new();

    assert!(request.configuration().is_none());
    assert!(request.panels().is_empty());
    assert!(request.stock_panels().is_empty());
    assert!(request.client_info().is_none());
}

#[test]
fn test_calculation_request_with_values() {
    let config = Configuration::new();
    let panels = vec![Panel::simple(1, "100".to_string(), "200".to_string(), 5)];
    let stock_panels = vec![Panel::simple(2, "300".to_string(), "400".to_string(), 2)];
    let client_info = ClientInfo::new();

    let request = CalculationRequest::with_values(
        Some(config.clone()),
        panels.clone(),
        stock_panels.clone(),
        Some(client_info.clone()),
    );

    assert!(request.configuration().is_some());
    assert_eq!(request.panels().len(), 1);
    assert_eq!(request.stock_panels().len(), 1);
    assert!(request.client_info().is_some());
}

#[test]
fn test_calculation_request_setters() {
    let mut request = CalculationRequest::new();
    let config = Configuration::new();
    let panels = vec![Panel::simple(1, "100".to_string(), "200".to_string(), 5)];
    let stock_panels = vec![Panel::simple(2, "300".to_string(), "400".to_string(), 2)];
    let client_info = ClientInfo::new();

    request.set_configuration(Some(config));
    request.set_panels(panels);
    request.set_stock_panels(stock_panels);
    request.set_client_info(Some(client_info));

    assert!(request.configuration().is_some());
    assert_eq!(request.panels().len(), 1);
    assert_eq!(request.stock_panels().len(), 1);
    assert!(request.client_info().is_some());
}

#[test]
fn test_calculation_request_builder_pattern() {
    let config = Configuration::new();
    let panel1 = Panel::simple(1, "100".to_string(), "200".to_string(), 5);
    let panel2 = Panel::simple(2, "150".to_string(), "250".to_string(), 3);
    let stock_panel = Panel::simple(3, "300".to_string(), "400".to_string(), 2);
    let client_info = ClientInfo::new();

    let request = CalculationRequest::new()
        .with_configuration(config)
        .add_panel(panel1)
        .add_panel(panel2)
        .add_stock_panel(stock_panel)
        .with_client_info(client_info);

    assert!(request.configuration().is_some());
    assert_eq!(request.panels().len(), 2);
    assert_eq!(request.stock_panels().len(), 1);
    assert!(request.client_info().is_some());
}

#[test]
fn test_tiles_to_string() {
    let panel1 = Panel::simple(1, "100".to_string(), "200".to_string(), 5);
    let panel2 = Panel::simple(2, "150".to_string(), "250".to_string(), 0);
    let panel3 = Panel::simple(3, "120".to_string(), "180".to_string(), 3);

    let request = CalculationRequest::new()
        .add_panel(panel1)
        .add_panel(panel2)
        .add_panel(panel3);

    let result = request.tiles_to_string();

    assert!(result.contains("[100x200]*5"));
    assert!(result.contains("[120x180]*3"));
    assert!(!result.contains("[150x250]*0"));
}

#[test]
fn test_base_tiles_to_string() {
    let stock1 = Panel::simple(1, "300".to_string(), "400".to_string(), 2);
    let stock2 = Panel::simple(2, "350".to_string(), "450".to_string(), 0);
    let stock3 = Panel::simple(3, "320".to_string(), "420".to_string(), 1);

    let request = CalculationRequest::new()
        .add_stock_panel(stock1)
        .add_stock_panel(stock2)
        .add_stock_panel(stock3);

    let result = request.base_tiles_to_string();

    assert!(result.contains("[300x400]*2"));
    assert!(result.contains("[320x420]*1"));
    assert!(!result.contains("[350x450]*0"));
}

#[test]
fn test_calculation_request_clone() {
    let panel = Panel::simple(1, "100".to_string(), "200".to_string(), 5);
    let original = CalculationRequest::new().add_panel(panel);
    let cloned = original.clone();

    assert_eq!(original, cloned);
    assert_eq!(original.panels().len(), cloned.panels().len());
}

#[test]
fn tiles_text_is_exact_and_ordered() {
    let request = CalculationRequest::new()
        .add_panel(Panel::simple(1, "100".to_string(), "200".to_string(), 5))
        .add_panel(Panel::simple(2, "150".to_string(), "250".to_string(), 0))
        .add_panel(Panel::simple(3, "120".to_string(), "180".to_string(), 3).with_enabled(false))
        .add_panel(Panel::simple(4, "7".to_string(), "8".to_string(), -2));
    assert_eq!(request.tiles_to_string(), " [100x200]*5 [120x180]*3-disabled");
    assert_eq!(CalculationRequest::new().tiles_to_string(), "");
    assert_eq!(CalculationRequest::default().base_tiles_to_string(), "");
}

#[test]
fn configuration_new_and_setters() {
    let mut c = Configuration::default();
    assert_eq!(c.cut_thickness(), None);
    assert!(!c.use_single_stock_unit());
    assert_eq!(c.optimization_priority(), 0);
    assert_eq!(c.units(), None);
    assert!(!c.consider_orientation());
    assert_eq!(c.min_trim_dimension(), None);
    c.set_cut_thickness(Some("3".to_string()));
    c.set_use_single_stock_unit(true);
    c.set_optimization_priority(2);
    c.set_units(Some(1));
    c.set_consider_orientation(true);
    c.set_min_trim_dimension(Some("10".to_string()));
    assert_eq!(c.cut_thickness(), Some("3"));
    assert!(c.use_single_stock_unit());
    assert_eq!(c.optimization_priority(), 2);
    assert_eq!(c.units(), Some(1));
    assert!(c.consider_orientation());
    assert_eq!(c.min_trim_dimension(), Some("10"));
}
