use xlock::{CredentialBuffer, MAX_BUF_SIZE};

fn filled(text: &str) -> CredentialBuffer {
    let mut b = CredentialBuffer::new();
    for c in text.chars() {
        b.push_char(c);
    }
    b
}

#[test]
fn pushes_read_back_in_order() {
    let b = filled("hunter2");
    assert_eq!(b.len(), 7);
    assert_eq!(b.build_str().unwrap(), "hunter2");
}

#[test]
fn non_ascii_characters_read_back() {
    let b = filled("pä€𝄞");
    assert_eq!(b.len(), 4);
    assert_eq!(b.build_str().unwrap(), "pä€𝄞");
}

#[test]
fn filling_to_capacity_keeps_everything() {
    let text: String = std::iter::repeat('x').take(MAX_BUF_SIZE).collect();
    let b = filled(&text);
    assert_eq!(b.len(), MAX_BUF_SIZE);
    assert_eq!(b.build_str().unwrap(), text);
}

#[test]
fn push_into_full_buffer_resets_to_new_char() {
    let text: String = std::iter::repeat('x').take(MAX_BUF_SIZE).collect();
    let mut b = filled(&text);
    b.push_char('z');
    assert_eq!(b.len(), 1);
    assert_eq!(b.build_str().unwrap(), "z");
}

#[test]
fn pop_removes_last_char() {
    let mut b = filled("abc");
    b.pop_char();
    assert_eq!(b.build_str().unwrap(), "ab");
}

#[test]
fn pop_on_empty_is_noop() {
    let mut b = CredentialBuffer::new();
    b.pop_char();
    assert!(b.is_empty());
    b.pop_char();
    assert!(b.is_empty());
    assert_eq!(b.build_str().unwrap(), "");
}

#[test]
fn clear_is_idempotent() {
    let mut b = filled("secret");
    b.clear();
    assert!(b.is_empty());
    assert_eq!(b.build_str().unwrap(), "");
    b.clear();
    assert!(b.is_empty());
    assert_eq!(b.build_str().unwrap(), "");
}
