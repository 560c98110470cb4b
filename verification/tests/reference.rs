use jrsx::node::{Ast, JsxBlock, JsxClose, Lit, MacroDef, Node};

fn begins_with_capital(text: &str) -> bool {
    text.starts_with(|c: char| c.is_ascii_uppercase())
}

fn marker_starts(text: &str) -> bool {
    text.strip_prefix("</").map_or(false, begins_with_capital)
        || text.strip_prefix('<').map_or(false, begins_with_capital)
        || text.starts_with("{#def")
}

fn letters(text: &str) -> &str {
    let end = text.find(|c: char| !c.is_ascii_alphabetic()).unwrap_or(text.len());
    &text[..end]
}

fn read_directive(text: &str) -> Option<(Node, &str)> {
    let after = text.strip_prefix("{#def")?;
    let list = after.trim_start_matches([' ', '\t']);
    if list.len() == after.len() {
        return None;
    }
    let close = list.find("#}")?;
    let padded = &list[..close];
    let names = padded.trim_end_matches([' ', '\t']);
    if names.len() == padded.len() || names.is_empty() {
        return None;
    }
    if names.starts_with(|c: char| c.is_ascii_whitespace())
        || names.ends_with(|c: char| c.is_ascii_whitespace())
    {
        return None;
    }
    let args: Vec<String> = names.split_ascii_whitespace().map(str::to_string).collect();
    if args.iter().any(|arg| !arg.chars().all(|c| c.is_ascii_alphabetic())) {
        return None;
    }
    Some((Node::MacroDef(MacroDef { args }), &list[close + 2..]))
}

fn read_tag(text: &str) -> Option<(Node, &str)> {
    let inside = text.strip_prefix('<')?;
    if let Some(closing) = inside.strip_prefix('/') {
        let name = letters(closing);
        let rest = closing[name.len()..].strip_prefix('>')?;
        return Some((Node::JsxClose(JsxClose { name: name.to_string() }), rest));
    }
    let name = letters(inside);
    let end = inside.find('>')?;
    let tokens: Vec<&str> = inside[name.len()..end].trim().split_ascii_whitespace().collect();
    let block = JsxBlock {
        name: name.to_string(),
        args: tokens.iter().filter(|t| !t.ends_with('/')).map(|t| t.to_string()).collect(),
        self_closing: tokens.iter().any(|t| t.ends_with('/')),
    };
    Some((Node::JsxBlock(block), &inside[end + 1..]))
}

fn read_all(source: &str) -> Option<Vec<Node>> {
    let mut nodes = Vec::new();
    let mut rest = source;
    while !rest.is_empty() {
        if !marker_starts(rest) {
            let end = rest
                .char_indices()
                .map(|(at, _)| at)
                .find(|at| *at > 0 && marker_starts(&rest[*at..]))
                .unwrap_or(rest.len());
            nodes.push(Node::Lit(Lit { val: rest[..end].to_string() }));
            rest = &rest[end..];
        } else if rest.starts_with("{#def") {
            let (node, after) = read_directive(rest)?;
            nodes.push(node);
            rest = after;
        } else {
            let (node, after) = read_tag(rest)?;
            nodes.push(node);
            rest = after;
        }
    }
    Some(nodes)
}

fn compare_all(pieces: &[&str], longest: usize) -> usize {
    let mut compared = 0;
    let mut picks = vec![0usize; 0];
    loop {
        let source: String = picks.iter().map(|pick| pieces[*pick]).collect();
        assert_eq!(Ast::from_str(&source).ok().map(|ast| ast.nodes), read_all(&source), "{source:?}");
        compared += 1;

        let mut at = picks.len();
        while at > 0 && picks[at - 1] + 1 == pieces.len() {
            at -= 1;
        }
        if at == 0 {
            if picks.len() == longest {
                return compared;
            }
            picks = vec![0; picks.len() + 1];
        } else {
            picks[at - 1] += 1;
            for pick in &mut picks[at..] {
                *pick = 0;
            }
        }
    }
}

#[test]
fn tags_scan_as_a_reading_by_hand() {
    let pieces = ["<", "/", ">", "A", "b", " ", "\n", "x/", "\u{a0}", "</B", "<C"];
    assert_eq!(compare_all(&pieces, 5), 1 + 11 + 121 + 1331 + 14641 + 161051);
}

#[test]
fn directives_scan_as_a_reading_by_hand() {
    let pieces = ["{#def", "#}", " ", "\t", "\n", "a", "B", "#", "}", "<A>", "1"];
    assert_eq!(compare_all(&pieces, 5), 1 + 11 + 121 + 1331 + 14641 + 161051);
}

#[test]
fn mixed_templates_scan_as_a_reading_by_hand() {
    let pieces = ["{#def a b #}", "{#def a", " #}", "<A b />", "</A>", "<A", ">", " text ", "<i>"];
    assert_eq!(compare_all(&pieces, 5), 1 + 9 + 81 + 729 + 6561 + 59049);
}
