use chat_wgpu::chat::{chatml_prompt, contains, eos_ids, present_ids, prompt_ids, Reply};
use tokenizers::Tokenizer;

const TOKENIZER: &str = r#"{
  "version": "1.0",
  "truncation": null,
  "padding": null,
  "added_tokens": [
    {"id": 3, "content": "<|im_end|>", "single_word": false, "lstrip": false, "rstrip": false, "normalized": false, "special": true}
  ],
  "normalizer": null,
  "pre_tokenizer": {"type": "WhitespaceSplit"},
  "post_processor": null,
  "decoder": null,
  "model": {"type": "WordLevel", "vocab": {"[UNK]": 0, "hello": 1, "world": 2, "<|im_end|>": 3}, "unk_token": "[UNK]"}
}"#;

#[test]
fn chatml_frame() {
    assert_eq!(
        chatml_prompt("hi", None),
        "<|im_start|>user\nhi<|im_end|>\n<|im_start|>assistant\n"
    );
    assert_eq!(
        chatml_prompt("hi", Some("be brief")),
        "<|im_start|>system\nbe brief<|im_end|>\n<|im_start|>user\nhi<|im_end|>\n<|im_start|>assistant\n"
    );
}

#[test]
fn present_ids_keeps_found_in_order() {
    assert_eq!(present_ids(&vec![Some(5), None, Some(2)]), vec![5, 2]);
    assert_eq!(present_ids(&vec![None, None]), Vec::<u32>::new());
    assert!(contains(&vec![1, 2], 2));
    assert!(!contains(&vec![], 2));
}

#[test]
fn reply_stops_at_eos_and_max_tokens() {
    let mut r = Reply::new(vec![3, 9], 2);
    assert!(r.wants_more());
    assert!(!r.accept(9));
    assert_eq!(r.produced(), &Vec::<u32>::new());
    assert!(r.accept(1));
    assert!(r.accept(2));
    assert!(!r.wants_more());
    assert_eq!(r.produced(), &vec![1, 2]);
}

#[test]
fn reply_streams_new_suffix() {
    let mut r = Reply::new(vec![], 8);
    assert_eq!(r.show("hel".to_string()), Some("hel".to_string()));
    assert_eq!(r.show("hello".to_string()), Some("lo".to_string()));
    assert_eq!(r.show("hello".to_string()), None);
    // the cut is by byte length: "hello" is 5 bytes, "héll" already 5
    assert_eq!(r.show("héllo wörld".to_string()), Some("o wörld".to_string()));
    assert_eq!(r.text(), "héllo wörld");
    // a shorter text is not shown
    assert_eq!(r.show("h".to_string()), None);
    assert_eq!(r.text(), "héllo wörld");
}

#[test]
fn tokenizer_round_trip() {
    let tok = Tokenizer::from_bytes(TOKENIZER.as_bytes()).unwrap();
    let eos = eos_ids(&tok);
    assert_eq!(eos, vec![3]);
    assert!(prompt_ids(&tok, "hello", None).unwrap().len() > 0);
    let mut r = Reply::new(eos, 4);
    assert!(r.accept(1));
    let d = tok.decode(r.produced(), true).map_err(|e| e.to_string());
    assert_eq!(r.take_decoded(d).unwrap(), Some("hello".to_string()));
    assert!(r.accept(2));
    let d = tok.decode(r.produced(), true).map_err(|e| e.to_string());
    assert_eq!(r.take_decoded(d).unwrap(), Some(" world".to_string()));
    assert!(!r.accept(3));
    assert_eq!(r.text(), "hello world");
}

#[test]
fn take_decoded_passes_errors_and_checks_boundaries() {
    let mut r = Reply::new(vec![], 4);
    assert_eq!(r.take_decoded(Err("bad id".to_string())), Err("bad id".to_string()));
    assert_eq!(r.take_decoded(Ok("hé".to_string())), Ok(Some("hé".to_string())));
    // "hé" is 3 bytes; byte 3 of "ééé" falls inside its second character
    assert!(r.take_decoded(Ok("ééé".to_string())).is_err());
    assert_eq!(r.text(), "hé");
    assert_eq!(r.take_decoded(Ok("héllo".to_string())), Ok(Some("llo".to_string())));
    assert_eq!(r.take_decoded(Ok("hi".to_string())), Ok(None));
}
