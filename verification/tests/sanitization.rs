use sanitizer::{encode_html, sanitize_email, sanitize_text, sanitize_url, strip_dangerous_tags, strip_tags};

#[test]
fn encode_html_escapes_all_five() {
    assert_eq!(encode_html("&<>\"'"), "&amp;&lt;&gt;&quot;&#x27;");
}

#[test]
fn encode_html_passes_plain_text() {
    assert_eq!(encode_html("héllo wörld — 日本語"), "héllo wörld — 日本語");
}

#[test]
fn encode_html_empty() {
    assert_eq!(encode_html(""), "");
}

#[test]
fn encode_html_entity_counts_match_originals() {
    let out = encode_html("a&b<c>d\"e'f&g<h");
    assert_eq!(out.matches("&amp;").count(), 2);
    assert_eq!(out.matches("&lt;").count(), 2);
    assert_eq!(out.matches("&gt;").count(), 1);
    assert_eq!(out.matches("&quot;").count(), 1);
    assert_eq!(out.matches("&#x27;").count(), 1);
    assert!(!out.contains('<') && !out.contains('>') && !out.contains('"') && !out.contains('\''));
}

#[test]
fn strip_tags_removes_lexical_tags() {
    assert_eq!(strip_tags("<b>Bob</b>"), "Bob");
    assert_eq!(strip_tags("a<b<c>d"), "ad");
    assert_eq!(strip_tags("no tags"), "no tags");
}

#[test]
fn strip_tags_keeps_unclosed_angle() {
    assert_eq!(strip_tags("a<b"), "a<b");
}

#[test]
fn strip_dangerous_removes_paired_script() {
    assert_eq!(strip_dangerous_tags("a<script>alert(1)</script>b"), "ab");
}

#[test]
fn strip_dangerous_is_case_insensitive() {
    let out = strip_dangerous_tags("<SCRIPT src=x>alert(1)</ScRiPt>ok");
    assert_eq!(out, "ok");
    assert!(!out.to_lowercase().contains("<script"));
}

#[test]
fn strip_dangerous_removes_self_closing() {
    assert_eq!(strip_dangerous_tags("a<embed src=x />b"), "ab");
}

#[test]
fn strip_dangerous_removes_every_listed_element() {
    for name in [
        "script", "iframe", "object", "embed", "link", "style", "base", "meta", "applet", "form",
    ] {
        let input = format!("x<{0} a=b>payload</{0}>z", name);
        assert_eq!(strip_dangerous_tags(&input), "xz");
    }
}

#[test]
fn strip_dangerous_keeps_other_markup() {
    assert_eq!(strip_dangerous_tags("<b>x</b><div>y</div>"), "<b>x</b><div>y</div>");
}

#[test]
fn strip_dangerous_keeps_unclosed_script_tag() {
    // No closing tag and no self-closing head: the pattern does not match.
    assert_eq!(strip_dangerous_tags("<script>alert(1)"), "<script>alert(1)");
}

#[test]
fn strip_dangerous_splice_is_rescanned_never() {
    // Removing the inner block splices the surrounding text; the scan does
    // not revisit it, so the spliced tag survives. The filter is
    // defence-in-depth beside strip_tags and encoding, not a lone guard.
    assert_eq!(strip_dangerous_tags("<scr<script></script>ipt>"), "<script>");
}

#[test]
fn sanitize_text_strips_then_encodes() {
    assert_eq!(sanitize_text("<b>Bob</b>"), "Bob");
    assert_eq!(sanitize_text("a & b"), "a &amp; b");
    assert_eq!(sanitize_text("<a href='x'>link</a> & more"), "link &amp; more");
}

#[test]
fn sanitize_text_empty() {
    assert_eq!(sanitize_text(""), "");
}

#[test]
fn sanitize_text_has_no_raw_markup() {
    for input in ["a<b", "x > y", "<scr<script>ipt>alert('x')", "\"quoted\""] {
        let out = sanitize_text(input);
        assert!(!out.contains('<'), "raw < in {out}");
        assert!(!out.contains('>'), "raw > in {out}");
        assert!(!out.contains('"'));
        assert!(!out.contains('\''));
    }
}

#[test]
fn sanitize_text_is_not_idempotent() {
    let once = sanitize_text("a & b");
    let twice = sanitize_text(&once);
    assert_eq!(once, "a &amp; b");
    assert_eq!(twice, "a &amp;amp; b");
    assert_ne!(once, twice);
}

#[test]
fn sanitize_email_scenario() {
    assert_eq!(sanitize_email("  USER<script>@Example.COM  "), "user@example.com");
}

#[test]
fn sanitize_email_removes_invalid_characters() {
    assert_eq!(sanitize_email("a b!c#d@e.f"), "abcd@e.f");
}

#[test]
fn sanitize_email_keeps_allowed_characters() {
    assert_eq!(sanitize_email("A_b-c+1@X.org"), "a_b-c+1@x.org");
}

#[test]
fn sanitize_email_empty() {
    assert_eq!(sanitize_email(""), "");
}

#[test]
fn sanitize_url_rejects_dangerous_protocols() {
    assert_eq!(sanitize_url("JAVASCRIPT:alert(1)"), "");
    assert_eq!(sanitize_url("javascript:alert(1)"), "");
    assert_eq!(sanitize_url("data:text/html;base64,xyz"), "");
    assert_eq!(sanitize_url("vbscript:msgbox(1)"), "");
    assert_eq!(sanitize_url("file:///etc/passwd"), "");
    assert_eq!(sanitize_url("  Data:text/html  "), "");
}

#[test]
fn sanitize_url_accepts_safe_protocols() {
    assert_eq!(sanitize_url("http://example.com"), "http://example.com");
    assert_eq!(sanitize_url("https://example.com/a?b=c"), "https://example.com/a?b=c");
    assert_eq!(sanitize_url("mailto:user@example.com"), "mailto:user@example.com");
    assert_eq!(sanitize_url("/relative/path"), "/relative/path");
}

#[test]
fn sanitize_url_trims_but_keeps_case() {
    assert_eq!(sanitize_url("  HTTPS://X.com  "), "HTTPS://X.com");
}

#[test]
fn sanitize_url_rejects_unknown_schemes() {
    assert_eq!(sanitize_url("ftp://x"), "");
    assert_eq!(sanitize_url("example.com"), "");
    assert_eq!(sanitize_url("ssh://host"), "");
}

#[test]
fn sanitize_url_empty_and_blank() {
    assert_eq!(sanitize_url(""), "");
    assert_eq!(sanitize_url("   "), "");
}
