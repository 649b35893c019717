//! The fixed parts of the HTML page that shows a cutting result.
use vstd::prelude::*;
use crate::text::push_str;

verus! {

/// Writer of the HTML page for a cutting result.
pub struct HtmlVisualizer;

/// The page start: doctype, head with title and styles, and the heading.
pub open spec fn html_header_text() -> Seq<char> {
    "<!DOCTYPE html>\n"@
        + "<html>\n"@
        + "<head>\n"@
        + "    <meta charset='UTF-8'>\n"@
        + "    <title>Результат раскроя</title>\n"@
        + "    <style>\n"@
        + "        body { font-family: Arial, sans-serif; margin: 20px; }\n"@
        + "        .mosaic { border: 2px solid #000; margin: 20px 0; position: relative; display: inline-block; }\n"@
        + "        .panel { position: absolute; border: 1px solid #333; text-align: center; display: flex; align-items: center; justify-content: center; font-size: 10px; font-weight: bold; }\n"@
        + "        .info { margin: 10px 0; }\n"@
        + "        .cuts { position: absolute; background: #ff0000; }\n"@
        + "        .cut-h { height: 1px; }\n"@
        + "        .cut-v { width: 1px; }\n"@
        + "        h2 { color: #333; }\n"@
        + "        .stats { background: #f5f5f5; padding: 10px; margin: 10px 0; border-radius: 5px; }\n"@
        + "    </style>\n"@
        + "</head>\n"@
        + "<body>\n"@
        + "    <h1>Результат оптимизации раскроя</h1>\n"@
}

/// The page end: the scale note and the closing tags.
pub open spec fn html_footer_text() -> Seq<char> {
    "    <div class='info'>\n"@
        + "        <small>Масштаб: 1 мм = 2 пикселя. Красные линии - резы.</small>\n"@
        + "    </div>\n"@
        + "</body>\n"@
        + "</html>"@
}

impl HtmlVisualizer {
    /// Appends the page start (see `html_header_text`).
    pub fn append_html_header(html: &mut String)
        ensures
            final(html)@ == old(html)@ + html_header_text(),
    {
        let ghost start = html@;
    push_str(html, "<!DOCTYPE html>\n");
    push_str(html, "<html>\n");
    push_str(html, "<head>\n");
    push_str(html, "    <meta charset='UTF-8'>\n");
    push_str(html, "    <title>Результат раскроя</title>\n");
    push_str(html, "    <style>\n");
    push_str(html, "        body { font-family: Arial, sans-serif; margin: 20px; }\n");
    push_str(html, "        .mosaic { border: 2px solid #000; margin: 20px 0; position: relative; display: inline-block; }\n");
    push_str(html, "        .panel { position: absolute; border: 1px solid #333; text-align: center; display: flex; align-items: center; justify-content: center; font-size: 10px; font-weight: bold; }\n");
    push_str(html, "        .info { margin: 10px 0; }\n");
    push_str(html, "        .cuts { position: absolute; background: #ff0000; }\n");
    push_str(html, "        .cut-h { height: 1px; }\n");
    push_str(html, "        .cut-v { width: 1px; }\n");
    push_str(html, "        h2 { color: #333; }\n");
    push_str(html, "        .stats { background: #f5f5f5; padding: 10px; margin: 10px 0; border-radius: 5px; }\n");
    push_str(html, "    </style>\n");
    push_str(html, "</head>\n");
    push_str(html, "<body>\n");
    push_str(html, "    <h1>Результат оптимизации раскроя</h1>\n");
        assert(html@ =~= start + html_header_text());
    }

    /// Appends the page end (see `html_footer_text`).
    pub fn append_html_footer(html: &mut String)
        ensures
            final(html)@ == old(html)@ + html_footer_text(),
    {
        let ghost start = html@;
    push_str(html, "    <div class='info'>\n");
    push_str(html, "        <small>Масштаб: 1 мм = 2 пикселя. Красные линии - резы.</small>\n");
    push_str(html, "    </div>\n");
    push_str(html, "</body>\n");
    push_str(html, "</html>");
        assert(html@ =~= start + html_footer_text());
    }
}

} // verus!
