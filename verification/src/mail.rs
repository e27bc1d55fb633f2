//! Outbound mail bodies, and the shape of parsed inbound mail. Sending
//! and MIME parsing live outside the library; the library builds the
//! HTML and walks the parsed tree.

use vstd::prelude::*;

verus! {

/// The fixed HTML that precedes the content of every outbound mail.
pub open spec fn html_layout_prefix() -> Seq<char> {
    "\n        <link\n            href=\"https://fonts.googleapis.com/css?family=Source+Code+Pro:400,700\"\n            rel=\"stylesheet\"\n        >\n        <pre\n            style=\"\n                background-color: white;\n                color: black;\n                font-family: 'Source Code Pro', 'Lucida Console', monospace;\n            \"\n        >"@
}

/// Wrap mail content in the service's fixed HTML layout: a monospace
/// block, nothing else.
pub fn html_layout(content: &str) -> (r: String)
    ensures
        r@ == html_layout_prefix() + content@ + "</pre>"@,
{
    let s = String::from_str(
        "\n        <link\n            href=\"https://fonts.googleapis.com/css?family=Source+Code+Pro:400,700\"\n            rel=\"stylesheet\"\n        >\n        <pre\n            style=\"\n                background-color: white;\n                color: black;\n                font-family: 'Source Code Pro', 'Lucida Console', monospace;\n            \"\n        >",
    );
    let s = s.concat(content);
    s.concat("</pre>")
}

/// One parsed inbound mail message: its body and its nested parts.
pub struct MailMessage {
    pub body: String,
    pub children: Vec<MailMessage>,
}

/// The bodies of a message tree, the message's own body first.
pub fn extract_bodies(mm: &MailMessage) -> (r: Vec<String>)
    ensures
        r@.len() >= 1,
        r@[0] == mm.body,
    decreases *mm,
{
    let mut bodies: Vec<String> = Vec::new();
    bodies.push(mm.body.clone());
    let mut i: usize = 0;
    while i < mm.children.len()
        invariant
            i <= mm.children@.len(),
            bodies@.len() >= 1,
            bodies@[0] == mm.body,
        decreases mm.children@.len() - i,
    {
        let mut child = extract_bodies(&mm.children[i]);
        bodies.append(&mut child);
        i += 1;
    }
    bodies
}

} // verus!
