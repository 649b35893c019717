use cutlist_optimizer::html_visualizer::HtmlVisualizer;

#[test]
fn html_header_and_footer_frame_the_page() {
    let mut html = String::from("x");
    HtmlVisualizer::append_html_header(&mut html);
    assert!(html.starts_with("x<!DOCTYPE html>\n<html>\n<head>\n"));
    assert!(html.contains("    <title>Результат раскроя</title>\n"));
    assert!(html.ends_with("<body>\n    <h1>Результат оптимизации раскроя</h1>\n"));
    let mut tail = String::new();
    HtmlVisualizer::append_html_footer(&mut tail);
    assert_eq!(
        tail,
        "    <div class='info'>\n        <small>Масштаб: 1 мм = 2 пикселя. Красные линии - резы.</small>\n    </div>\n</body>\n</html>"
    );
}
