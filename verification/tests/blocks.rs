use capx::json::JsonValue;
use capx::markdown::{markdown_to_blocks, parse_inline_tokens};
use capx::render::{block_to_markdown, blocks_to_markdown, tokens_to_markdown};
use serde_json::Value;

fn from_value(v: &Value) -> JsonValue {
    match v {
        Value::Null => JsonValue::Null,
        Value::Bool(b) => JsonValue::Bool(*b),
        Value::Number(n) => JsonValue::Number(n.to_string()),
        Value::String(s) => JsonValue::Str(s.clone()),
        Value::Array(a) => JsonValue::Array(a.iter().map(from_value).collect()),
        Value::Object(m) => JsonValue::Object(m.iter().map(|(k, v)| (k.clone(), from_value(v))).collect()),
    }
}

fn to_value(j: &JsonValue) -> Value {
    match j {
        JsonValue::Null => Value::Null,
        JsonValue::Bool(b) => Value::Bool(*b),
        JsonValue::Number(n) => serde_json::from_str(n).unwrap(),
        JsonValue::Str(s) => Value::String(s.clone()),
        JsonValue::Array(a) => Value::Array(a.iter().map(to_value).collect()),
        JsonValue::Object(ps) => {
            let mut m = serde_json::Map::new();
            for (k, v) in ps {
                m.insert(k.clone(), to_value(v));
            }
            Value::Object(m)
        }
    }
}

fn doc(text: &str) -> JsonValue {
    from_value(&serde_json::from_str::<Value>(text).unwrap())
}

fn values(v: &[JsonValue]) -> Vec<Value> {
    v.iter().map(to_value).collect()
}

// --- tokens_to_markdown ---

#[test]
fn tokens_to_markdown_plain() {
    let tokens = vec![doc(r#"{"type": "TextToken", "text": "hello", "style": {"bold": false, "italic": false}}"#)];
    assert_eq!(tokens_to_markdown(&tokens), "hello");
}

#[test]
fn tokens_to_markdown_bold() {
    let tokens = vec![doc(r#"{"type": "TextToken", "text": "hello", "style": {"bold": true, "italic": false}}"#)];
    assert_eq!(tokens_to_markdown(&tokens), "**hello**");
}

#[test]
fn tokens_to_markdown_italic() {
    let tokens = vec![doc(r#"{"type": "TextToken", "text": "hello", "style": {"bold": false, "italic": true}}"#)];
    assert_eq!(tokens_to_markdown(&tokens), "*hello*");
}

#[test]
fn tokens_to_markdown_bold_italic() {
    let tokens = vec![doc(r#"{"type": "TextToken", "text": "hello", "style": {"bold": true, "italic": true}}"#)];
    assert_eq!(tokens_to_markdown(&tokens), "***hello***");
}

#[test]
fn tokens_to_markdown_code() {
    let tokens = vec![doc(r#"{"type": "CodeToken", "code": "foo()"}"#)];
    assert_eq!(tokens_to_markdown(&tokens), "`foo()`");
}

#[test]
fn tokens_to_markdown_code_text_fallback() {
    let tokens = vec![doc(r#"{"type": "CodeToken", "text": "bar"}"#)];
    assert_eq!(tokens_to_markdown(&tokens), "`bar`");
}

#[test]
fn tokens_to_markdown_link() {
    let tokens = vec![doc(r#"{"type": "LinkToken", "text": "Click", "url": "https://example.com"}"#)];
    assert_eq!(tokens_to_markdown(&tokens), "[Click](https://example.com)");
}

#[test]
fn tokens_to_markdown_link_no_text() {
    let tokens = vec![doc(r#"{"type": "LinkToken", "url": "https://example.com"}"#)];
    assert_eq!(tokens_to_markdown(&tokens), "[https://example.com](https://example.com)");
}

#[test]
fn tokens_to_markdown_unknown_type() {
    let tokens = vec![doc(r#"{"type": "FooToken", "text": "fallback"}"#)];
    assert_eq!(tokens_to_markdown(&tokens), "fallback");
}

#[test]
fn tokens_to_markdown_multiple() {
    let tokens = vec![
        doc(r#"{"type": "TextToken", "text": "Hello ", "style": {"bold": false, "italic": false}}"#),
        doc(r#"{"type": "TextToken", "text": "world", "style": {"bold": true, "italic": false}}"#),
    ];
    assert_eq!(tokens_to_markdown(&tokens), "Hello **world**");
}

// --- block_to_markdown ---

#[test]
fn block_to_markdown_text_base() {
    let block = doc(
        r#"{"type": "TextBlock",
            "tokens": [{"type": "TextToken", "text": "Hello", "style": {"bold": false, "italic": false}}],
            "hierarchy": {"key": "Base"}}"#,
    );
    assert_eq!(block_to_markdown(&block), "Hello");
}

#[test]
fn block_to_markdown_headings() {
    for (level, prefix) in [("H1", "#"), ("H2", "##"), ("H3", "###"), ("H4", "####")] {
        let block = doc(&format!(
            r#"{{"type": "TextBlock",
                "tokens": [{{"type": "TextToken", "text": "Title", "style": {{"bold": false, "italic": false}}}}],
                "hierarchy": {{"key": "{level}"}}}}"#
        ));
        assert_eq!(block_to_markdown(&block), format!("{prefix} Title"));
    }
}

#[test]
fn block_to_markdown_code_with_lang() {
    let block = doc(r#"{"type": "CodeBlock", "language": "rust", "code": "fn main() {}"}"#);
    assert_eq!(block_to_markdown(&block), "```rust\nfn main() {}\n```");
}

#[test]
fn block_to_markdown_code_no_lang() {
    let block = doc(r#"{"type": "CodeBlock", "language": "", "code": "x = 1"}"#);
    assert_eq!(block_to_markdown(&block), "```\nx = 1\n```");
}

#[test]
fn block_to_markdown_code_tokens_fallback() {
    let block = doc(
        r#"{"type": "CodeBlock", "language": "py",
            "tokens": [{"type": "TextToken", "text": "print(1)", "style": {"bold": false, "italic": false}}]}"#,
    );
    assert_eq!(block_to_markdown(&block), "```py\nprint(1)\n```");
}

#[test]
fn block_to_markdown_entity() {
    let block = doc(r#"{"type": "EntityBlock", "tokens": [{"entityTitle": "My Note"}]}"#);
    assert_eq!(block_to_markdown(&block), "[[My Note]]");
}

#[test]
fn block_to_markdown_entity_text_fallback() {
    let block = doc(r#"{"type": "EntityBlock", "tokens": [{"text": "plain ref"}]}"#);
    assert_eq!(block_to_markdown(&block), "plain ref");
}

#[test]
fn block_to_markdown_entity_no_tokens() {
    let block = doc(r#"{"type": "EntityBlock"}"#);
    assert_eq!(block_to_markdown(&block), "");
}

#[test]
fn block_to_markdown_horizontal_line() {
    let block = doc(r#"{"type": "HorizontalLineBlock"}"#);
    assert_eq!(block_to_markdown(&block), "---");
}

#[test]
fn block_to_markdown_table() {
    let block = doc(
        r#"{"type": "SimpleTableBlock",
            "columns": [
                {"cells": [
                    {"tokens": [{"type": "TextToken", "text": "A", "style": {"bold": false, "italic": false}}]},
                    {"tokens": [{"type": "TextToken", "text": "1", "style": {"bold": false, "italic": false}}]}
                ]},
                {"cells": [
                    {"tokens": [{"type": "TextToken", "text": "B", "style": {"bold": false, "italic": false}}]},
                    {"tokens": [{"type": "TextToken", "text": "2", "style": {"bold": false, "italic": false}}]}
                ]}
            ]}"#,
    );
    let md = block_to_markdown(&block);
    assert_eq!(md, "| A | B |\n| --- | --- |\n| 1 | 2 |");
}

#[test]
fn block_to_markdown_table_empty_columns() {
    let block = doc(r#"{"type": "SimpleTableBlock", "columns": []}"#);
    assert_eq!(block_to_markdown(&block), "");
}

#[test]
fn block_to_markdown_table_no_rows() {
    let block = doc(r#"{"type": "SimpleTableBlock", "columns": [{"cells": []}]}"#);
    assert_eq!(block_to_markdown(&block), "");
}

#[test]
fn block_to_markdown_unknown_type() {
    let block = doc(r#"{"type": "UnknownBlock"}"#);
    assert_eq!(block_to_markdown(&block), "<!-- unsupported: UnknownBlock -->");
}

#[test]
fn block_to_markdown_unsupported_type() {
    let block = doc(r#"{"type": "SomeNewBlock"}"#);
    assert_eq!(block_to_markdown(&block), "<!-- unsupported: SomeNewBlock -->");
}

// --- blocks_to_markdown ---

#[test]
fn blocks_to_markdown_empty() {
    assert_eq!(blocks_to_markdown(&Vec::new()), "");
}

#[test]
fn blocks_to_markdown_multiple() {
    let blocks = vec![
        doc(r#"{"type": "TextBlock", "tokens": [{"type": "TextToken", "text": "line1", "style": {"bold": false, "italic": false}}], "hierarchy": {"key": "Base"}}"#),
        doc(r#"{"type": "HorizontalLineBlock"}"#),
        doc(r#"{"type": "TextBlock", "tokens": [{"type": "TextToken", "text": "line2", "style": {"bold": false, "italic": false}}], "hierarchy": {"key": "Base"}}"#),
    ];
    assert_eq!(blocks_to_markdown(&blocks), "line1\n---\nline2");
}

// --- parse_inline_tokens ---

#[test]
fn parse_inline_plain() {
    let tokens = values(&parse_inline_tokens("hello world"));
    assert_eq!(tokens.len(), 1);
    assert_eq!(tokens[0]["type"], "TextToken");
    assert_eq!(tokens[0]["text"], "hello world");
}

#[test]
fn parse_inline_bold() {
    let tokens = values(&parse_inline_tokens("**bold**"));
    assert_eq!(tokens.len(), 1);
    assert_eq!(tokens[0]["text"], "bold");
    assert_eq!(tokens[0]["style"]["bold"], true);
    assert_eq!(tokens[0]["style"]["italic"], false);
}

#[test]
fn parse_inline_italic() {
    let tokens = values(&parse_inline_tokens("*italic*"));
    assert_eq!(tokens.len(), 1);
    assert_eq!(tokens[0]["text"], "italic");
    assert_eq!(tokens[0]["style"]["italic"], true);
    assert_eq!(tokens[0]["style"]["bold"], false);
}

#[test]
fn parse_inline_bold_italic() {
    let tokens = values(&parse_inline_tokens("***both***"));
    assert_eq!(tokens.len(), 1);
    assert_eq!(tokens[0]["text"], "both");
    assert_eq!(tokens[0]["style"]["bold"], true);
    assert_eq!(tokens[0]["style"]["italic"], true);
}

#[test]
fn parse_inline_code() {
    let tokens = values(&parse_inline_tokens("`code`"));
    assert_eq!(tokens.len(), 1);
    assert_eq!(tokens[0]["type"], "CodeToken");
    assert_eq!(tokens[0]["code"], "code");
}

#[test]
fn parse_inline_link() {
    let tokens = values(&parse_inline_tokens("[Click](https://example.com)"));
    assert_eq!(tokens.len(), 1);
    assert_eq!(tokens[0]["type"], "LinkToken");
    assert_eq!(tokens[0]["text"], "Click");
    assert_eq!(tokens[0]["url"], "https://example.com");
}

#[test]
fn parse_inline_mixed() {
    let tokens = values(&parse_inline_tokens("Hello **bold** and *italic*"));
    assert_eq!(tokens.len(), 4);
    assert_eq!(tokens[0]["text"], "Hello ");
    assert_eq!(tokens[1]["text"], "bold");
    assert_eq!(tokens[1]["style"]["bold"], true);
    assert_eq!(tokens[2]["text"], " and ");
    assert_eq!(tokens[3]["text"], "italic");
    assert_eq!(tokens[3]["style"]["italic"], true);
}

#[test]
fn parse_inline_empty() {
    let tokens = values(&parse_inline_tokens(""));
    assert_eq!(tokens.len(), 1);
    assert_eq!(tokens[0]["text"], "");
}

// --- markdown_to_blocks ---

#[test]
fn md_to_blocks_headings() {
    let blocks = values(&markdown_to_blocks("# H1\n## H2\n### H3\n#### H4"));
    assert_eq!(blocks.len(), 4);
    assert_eq!(blocks[0]["hierarchy"]["key"], "H1");
    assert_eq!(blocks[1]["hierarchy"]["key"], "H2");
    assert_eq!(blocks[2]["hierarchy"]["key"], "H3");
    assert_eq!(blocks[3]["hierarchy"]["key"], "H4");
}

#[test]
fn md_to_blocks_code_fence() {
    let blocks = values(&markdown_to_blocks("```rust\nfn main() {}\n```"));
    assert_eq!(blocks.len(), 1);
    assert_eq!(blocks[0]["type"], "CodeBlock");
    assert_eq!(blocks[0]["language"], "rust");
    assert_eq!(blocks[0]["code"], "fn main() {}");
}

#[test]
fn md_to_blocks_code_fence_no_lang() {
    let blocks = values(&markdown_to_blocks("```\nsome code\n```"));
    assert_eq!(blocks.len(), 1);
    assert_eq!(blocks[0]["type"], "CodeBlock");
    assert_eq!(blocks[0]["language"], "");
}

#[test]
fn md_to_blocks_horizontal_rule() {
    for hr in ["---", "***", "___"] {
        let blocks = values(&markdown_to_blocks(hr));
        assert_eq!(blocks.len(), 1, "failed for {hr}");
        assert_eq!(blocks[0]["type"], "HorizontalLineBlock");
    }
}

#[test]
fn md_to_blocks_plain_text() {
    let blocks = values(&markdown_to_blocks("Hello world"));
    assert_eq!(blocks.len(), 1);
    assert_eq!(blocks[0]["type"], "TextBlock");
    assert_eq!(blocks[0]["hierarchy"]["key"], "Base");
}

#[test]
fn md_to_blocks_empty() {
    let blocks = values(&markdown_to_blocks(""));
    assert_eq!(blocks.len(), 1);
    assert_eq!(blocks[0]["type"], "TextBlock");
}

// --- Roundtrip ---

fn roundtrip(md: &str) -> String {
    blocks_to_markdown(&markdown_to_blocks(md))
}

#[test]
fn roundtrip_plain_text() {
    let md = "Hello world";
    assert_eq!(roundtrip(md), md);
}

#[test]
fn roundtrip_heading() {
    let md = "## My Heading";
    assert_eq!(roundtrip(md), md);
}

#[test]
fn roundtrip_code_block() {
    let md = "```rust\nlet x = 1;\n```";
    assert_eq!(roundtrip(md), md);
}

#[test]
fn roundtrip_horizontal_rule() {
    let blocks = markdown_to_blocks("---");
    let result = blocks_to_markdown(&blocks);
    assert_eq!(result, "---");
}

#[test]
fn roundtrip_bold_italic() {
    let md = "Hello **bold** and *italic* text";
    assert_eq!(roundtrip(md), md);
}

#[test]
fn roundtrip_inline_code() {
    let md = "Use `foo()` here";
    assert_eq!(roundtrip(md), md);
}

#[test]
fn roundtrip_link() {
    let md = "Visit [Example](https://example.com) now";
    assert_eq!(roundtrip(md), md);
}

#[test]
fn roundtrip_multi_block() {
    let md = "# Title\nSome text\n---\n```py\nprint(1)\n```";
    assert_eq!(roundtrip(md), md);
}

// --- Edge cases ---

#[test]
fn code_block_with_special_chars() {
    let md = "```js\nconst x = '<div class=\"foo\">';\n```";
    assert_eq!(roundtrip(md), md);
}

#[test]
fn code_block_with_backticks_inside() {
    let md = "```\nuse `backtick` inside\n```";
    assert_eq!(roundtrip(md), md);
}

#[test]
fn entity_block_uuid_preserved() {
    let uuid = "550e8400-e29b-41d4-a716-446655440000";
    let block = doc(&format!(
        r#"{{"type": "EntityBlock", "tokens": [{{"entityTitle": "Test Entity", "entity": {{"id": "{uuid}"}}}}]}}"#
    ));
    let md = block_to_markdown(&block);
    assert_eq!(md, format!("[[Test Entity|{uuid}]]"));
}

#[test]
fn entity_block_no_uuid() {
    let block = doc(r#"{"type": "EntityBlock", "tokens": [{"entityTitle": "No UUID Entity"}]}"#);
    assert_eq!(block_to_markdown(&block), "[[No UUID Entity]]");
}

#[test]
fn roundtrip_wikilink_with_uuid() {
    let uuid = "550e8400-e29b-41d4-a716-446655440000";
    let md = format!("[[My Entity|{uuid}]]");
    let blocks = markdown_to_blocks(&md);
    assert_eq!(to_value(&blocks[0])["type"], "EntityBlock");
    let result = blocks_to_markdown(&blocks);
    assert_eq!(result, md);
}

#[test]
fn roundtrip_wikilink_no_uuid() {
    let md = "[[Simple Link]]";
    let blocks = markdown_to_blocks(md);
    assert_eq!(to_value(&blocks[0])["type"], "EntityBlock");
    let result = blocks_to_markdown(&blocks);
    assert_eq!(result, md);
}

#[test]
fn nested_inline_bold_and_code() {
    let tokens = values(&parse_inline_tokens("**bold** then `code` then *italic*"));
    assert_eq!(tokens.len(), 5);
    assert_eq!(tokens[0]["text"], "bold");
    assert_eq!(tokens[0]["style"]["bold"], true);
    assert_eq!(tokens[1]["text"], " then ");
    assert_eq!(tokens[2]["type"], "CodeToken");
    assert_eq!(tokens[2]["code"], "code");
    assert_eq!(tokens[3]["text"], " then ");
    assert_eq!(tokens[4]["text"], "italic");
    assert_eq!(tokens[4]["style"]["italic"], true);
}

#[test]
fn multiline_text_blocks() {
    let md = "Line one\nLine two\nLine three";
    let blocks = values(&markdown_to_blocks(md));
    assert_eq!(blocks.len(), 3);
    for b in &blocks {
        assert_eq!(b["type"], "TextBlock");
    }
}

#[test]
fn heading_with_inline_formatting() {
    let md = "## Hello **world**";
    let blocks = markdown_to_blocks(md);
    assert_eq!(to_value(&blocks[0])["hierarchy"]["key"], "H2");
    let result = blocks_to_markdown(&blocks);
    assert_eq!(result, md);
}

#[test]
fn tokens_to_markdown_empty_text_token() {
    let tokens = vec![doc(r#"{"type": "TextToken", "text": "", "style": {"bold": false, "italic": false}}"#)];
    assert_eq!(tokens_to_markdown(&tokens), "");
}

#[test]
fn text_block_no_tokens() {
    let block = doc(r#"{"type": "TextBlock", "hierarchy": {"key": "Base"}}"#);
    assert_eq!(block_to_markdown(&block), "");
}

// --- New block type tests ---

#[test]
fn roundtrip_checklist_checked() {
    let md = "- [x] Done task";
    assert_eq!(roundtrip(md), md);
}

#[test]
fn roundtrip_checklist_unchecked() {
    let md = "- [ ] Pending task";
    assert_eq!(roundtrip(md), md);
}

#[test]
fn roundtrip_bullet_list() {
    let md = "- Item one\n- Item two\n- Item three";
    assert_eq!(roundtrip(md), md);
}

#[test]
fn roundtrip_numbered_list() {
    let md = "1. First\n2. Second\n3. Third";
    assert_eq!(roundtrip(md), md);
}

#[test]
fn roundtrip_quote() {
    let md = "> This is a quote";
    assert_eq!(roundtrip(md), md);
}

#[test]
fn roundtrip_callout() {
    let md = "> [!NOTE] Important note here";
    assert_eq!(roundtrip(md), md);
}

#[test]
fn block_to_markdown_toggle() {
    let block = doc(
        r#"{"type": "ToggleBlock",
            "tokens": [{"type": "TextToken", "text": "Title", "style": {"bold": false, "italic": false}}],
            "blocks": [
                {"type": "TextBlock", "tokens": [{"type": "TextToken", "text": "Content", "style": {"bold": false, "italic": false}}], "hierarchy": {"key": "Base"}}
            ]}"#,
    );
    assert_eq!(block_to_markdown(&block), "<details><summary>Title</summary>Content</details>");
}

#[test]
fn block_to_markdown_image_with_url() {
    let block = doc(r#"{"type": "ImageBlock", "url": "https://example.com/img.png", "alt": "My Image"}"#);
    assert_eq!(block_to_markdown(&block), "![My Image](https://example.com/img.png)");
}

#[test]
fn block_to_markdown_image_no_url() {
    let block = doc(r#"{"type": "ImageBlock", "filename": "photo.jpg"}"#);
    assert_eq!(block_to_markdown(&block), "[Image: photo.jpg]");
}

#[test]
fn md_to_blocks_checklist() {
    let blocks = values(&markdown_to_blocks("- [x] done\n- [ ] pending"));
    assert_eq!(blocks.len(), 2);
    assert_eq!(blocks[0]["type"], "ChecklistBlock");
    assert_eq!(blocks[0]["checked"], true);
    assert_eq!(blocks[1]["type"], "ChecklistBlock");
    assert_eq!(blocks[1]["checked"], false);
}

#[test]
fn md_to_blocks_bullet_list() {
    let blocks = values(&markdown_to_blocks("- item one\n- item two"));
    assert_eq!(blocks.len(), 2);
    assert_eq!(blocks[0]["type"], "BulletListBlock");
    assert_eq!(blocks[1]["type"], "BulletListBlock");
}

#[test]
fn md_to_blocks_numbered_list() {
    let blocks = values(&markdown_to_blocks("1. first\n2. second"));
    assert_eq!(blocks.len(), 2);
    assert_eq!(blocks[0]["type"], "NumberedListBlock");
    assert_eq!(blocks[0]["number"], 1);
    assert_eq!(blocks[1]["type"], "NumberedListBlock");
    assert_eq!(blocks[1]["number"], 2);
}

#[test]
fn md_to_blocks_quote() {
    let blocks = values(&markdown_to_blocks("> quoted text"));
    assert_eq!(blocks.len(), 1);
    assert_eq!(blocks[0]["type"], "QuoteBlock");
}

#[test]
fn md_to_blocks_callout() {
    let blocks = values(&markdown_to_blocks("> [!WARNING] Be careful"));
    assert_eq!(blocks.len(), 1);
    assert_eq!(blocks[0]["type"], "CalloutBlock");
    assert_eq!(blocks[0]["calloutType"], "WARNING");
}

#[test]
fn checklist_with_inline_formatting() {
    let md = "- [x] **Important** task";
    let blocks = markdown_to_blocks(md);
    assert_eq!(to_value(&blocks[0])["type"], "ChecklistBlock");
    let result = blocks_to_markdown(&blocks);
    assert_eq!(result, md);
}

#[test]
fn bullet_not_confused_with_hr() {
    let blocks = values(&markdown_to_blocks("- single item"));
    assert_eq!(blocks.len(), 1);
    assert_eq!(blocks[0]["type"], "BulletListBlock");
}

#[test]
fn text_block_missing_hierarchy() {
    let block = doc(
        r#"{"type": "TextBlock", "tokens": [{"type": "TextToken", "text": "hello", "style": {"bold": false, "italic": false}}]}"#,
    );
    assert_eq!(block_to_markdown(&block), "hello");
}

// --- Of this library ---

#[test]
fn new_blocks_get_uuid_identifiers() {
    let blocks = values(&markdown_to_blocks("Some *text*\n---"));
    assert_eq!(blocks.len(), 2);
    for b in &blocks {
        let id = b["id"].as_str().unwrap();
        assert!(capx::ids::is_uuid(id), "not a uuid: {id}");
    }
    assert_ne!(blocks[0]["id"], blocks[1]["id"]);
}

#[test]
fn roundtrip_every_block_kind() {
    let md = "# A\n## B\n### C\n#### D\nplain\n- [x] done\n- [ ] open\n- bullet\n7. seventh\n> quote\n> [!TIP] hint\n---\n```sh\necho hi\n\n```\n[[Note]]\n[[Other|550e8400-e29b-41d4-a716-446655440000]]";
    assert_eq!(roundtrip(md), md);
}

#[test]
fn unterminated_fence_takes_the_rest() {
    let blocks = values(&markdown_to_blocks("before\n```rust\nfn x() {}\nmore"));
    assert_eq!(blocks.len(), 2);
    assert_eq!(blocks[0]["type"], "TextBlock");
    assert_eq!(blocks[1]["type"], "CodeBlock");
    assert_eq!(blocks[1]["code"], "fn x() {}\nmore");
}

#[test]
fn fence_word_class_is_regex_word() {
    let blocks = values(&markdown_to_blocks("```\u{b2}\nabc"));
    assert_eq!(blocks.len(), 2);
    assert_eq!(blocks[0]["type"], "TextBlock");
    assert_eq!(blocks[1]["type"], "TextBlock");
    let blocks = values(&markdown_to_blocks("```\u{e9}t\u{e9}\ncode\n```"));
    assert_eq!(blocks.len(), 1);
    assert_eq!(blocks[0]["type"], "CodeBlock");
    assert_eq!(blocks[0]["language"], "\u{e9}t\u{e9}");
}

#[test]
fn callout_word_takes_marks() {
    let blocks = values(&markdown_to_blocks("> [!note\u{301}] hi"));
    assert_eq!(blocks[0]["type"], "CalloutBlock");
    assert_eq!(blocks[0]["calloutType"], "note\u{301}");
}

#[test]
fn numbered_item_with_unicode_digits() {
    let blocks = values(&markdown_to_blocks("\u{663}. item"));
    assert_eq!(blocks[0]["type"], "NumberedListBlock");
    assert_eq!(blocks[0]["number"], 1);
    let blocks = values(&markdown_to_blocks("12. item"));
    assert_eq!(blocks[0]["number"], 12);
}
