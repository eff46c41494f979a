use p2p_chat::patch::{apply_patch, make_patch, PatchError};

/// A small generator of numbers, so that the texts are the same in every run.
struct Numbers(u64);

impl Numbers {
    fn below(&mut self, n: u64) -> u64 {
        self.0 = self.0.wrapping_mul(6364136223846793005).wrapping_add(1442695040888963407);
        (self.0 >> 33) % n
    }

    fn text(&mut self, max_lines: u64, lines: &[&str]) -> String {
        let mut text = String::new();
        for _ in 0..self.below(max_lines + 1) {
            text.push_str(lines[self.below(lines.len() as u64) as usize]);
            text.push('\n');
        }
        if self.below(2) == 0 {
            text.pop();
        }
        text
    }

    fn edited(&mut self, text: &str, lines: &[&str]) -> String {
        let mut kept: Vec<String> = text.split_inclusive('\n').map(|l| l.to_string()).collect();
        for _ in 0..self.below(4) + 1 {
            let at = self.below(kept.len() as u64 + 1) as usize;
            if self.below(2) == 0 && at < kept.len() {
                kept.remove(at);
            } else {
                kept.insert(at, format!("{}\n", lines[self.below(lines.len() as u64) as usize]));
            }
        }
        kept.concat()
    }
}

#[test]
fn a_patch_is_a_unified_diff() {
    assert_eq!(
        make_patch("one\ntwo\n", "one\nTWO\n"),
        "--- original\n+++ modified\n@@ -1,2 +1,2 @@\n one\n-two\n+TWO\n"
    );
    assert_eq!(make_patch("same\n", "same\n"), "--- original\n+++ modified\n");
}

#[test]
fn a_patch_leads_from_the_old_to_the_new_text() {
    for (old_text, new_text) in [
        ("", "a\n"),
        ("a\n", ""),
        ("", "a"),
        ("a", "a\n"),
        ("a\n", "a"),
        ("a\r\nb\r\n", "a\r\nc\r\n"),
        ("\n\n\n", "\n"),
        ("-- x\n++ y\n@@ z\n\\ No newline at end of file\n", "--- x\n+++ y\n@@ -1 +1 @@\n"),
        ("same\n", "same\n"),
        ("grüße\n", "größe\n"),
    ] {
        let text = make_patch(old_text, new_text);
        assert_eq!(apply_patch(old_text, &text), Ok(new_text.to_string()));
    }
}

#[test]
fn generated_texts_are_patched() {
    let words = ["", "a", "b", "c", " ", "-", "+", "@@ -1 +1 @@", "--- a", "+++ b", "\\ x", "\r"];
    let mut numbers = Numbers(7);
    for _ in 0..20_000 {
        let old_text = numbers.text(14, &words);
        let new_text = numbers.text(14, &words);
        let text = make_patch(&old_text, &new_text);
        assert_eq!(apply_patch(&old_text, &text), Ok(new_text));
    }
    for _ in 0..20_000 {
        let old_text = numbers.text(60, &words);
        let new_text = numbers.edited(&old_text, &words);
        let text = make_patch(&old_text, &new_text);
        assert_eq!(apply_patch(&old_text, &text), Ok(new_text));
    }
}

#[test]
fn what_is_no_patch_is_unparsable() {
    let text = "--- original\n+++ modified\n@@ -1,2 +1,2 @@\n one\n";
    assert_eq!(apply_patch("one\n", text), Err(PatchError::Unparsable));
    assert_eq!(apply_patch("one\n", "@@ nonsense"), Err(PatchError::Unparsable));
}

#[test]
fn a_patch_for_another_text_is_inapplicable() {
    let text = make_patch("one\ntwo\n", "one\nTWO\n");
    assert_eq!(apply_patch("three\n", &text), Err(PatchError::Inapplicable));
}

#[test]
fn a_text_without_hunks_changes_nothing() {
    assert_eq!(apply_patch("one\n", "just words\n"), Ok("one\n".to_string()));
    assert_eq!(apply_patch("one\n", ""), Ok("one\n".to_string()));
}
