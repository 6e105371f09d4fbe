use mixtex::orchestrator::{run_to_end, DecodeOutcome, OrchestratorConfig};
use mixtex::store::TemporaryData;
use mixtex::transcript::final_decode;
use mixtex::upload::upload_image;
use mixtex::vocab::sequence_markers;

fn white_png_bytes() -> Vec<u8> {
    let img = image::RgbImage::from_pixel(10, 10, image::Rgb([255u8, 255, 255]));
    let mut bytes: Vec<u8> = Vec::new();
    let mut cursor = std::io::Cursor::new(&mut bytes);
    img.write_to(&mut cursor, image::ImageOutputFormat::Png)
        .unwrap();
    bytes
}

fn test_tokenizer() -> tokenizers::Tokenizer {
    let spec = r#"{
        "version": "1.0",
        "model": {
            "type": "WordLevel",
            "vocab": {"<s>": 0, "</s>": 1, "hello": 2, "world": 3},
            "unk_token": "<s>"
        }
    }"#;
    tokenizers::Tokenizer::from_bytes(spec.as_bytes()).unwrap()
}

#[test]
fn upload_of_valid_image_succeeds() {
    let mut store = TemporaryData::new();
    let bytes = white_png_bytes();
    assert!(upload_image(&mut store, &bytes).is_ok());
    assert!(store.get_image().is_some());
}

#[test]
fn upload_of_garbage_is_rejected_and_leaves_store_untouched() {
    let mut store = TemporaryData::new();
    let result = upload_image(&mut store, b"not an image at all");
    assert!(result.is_err());
    assert!(!result.unwrap_err().is_empty());
    assert!(store.get_image().is_none());
}

#[test]
fn final_decode_before_any_run_is_a_client_error() {
    let store = TemporaryData::new();
    let tokenizer = test_tokenizer();
    assert!(final_decode(&store, &tokenizer).is_err());
}

#[test]
fn markers_resolve_from_vocabulary_with_fallbacks() {
    let tokenizer = test_tokenizer();
    let (bos, eos) = sequence_markers(&tokenizer);
    assert_eq!(bos, 0);
    assert_eq!(eos, 1);
}

#[test]
fn upload_then_stream_then_final_decode() {
    // Upload a 10x10 solid-white image, run a generation with a stub
    // decoder, and read the final transcript: at least one event comes
    // out and the final read is not an error.
    let mut store = TemporaryData::new();
    let bytes = white_png_bytes();
    upload_image(&mut store, &bytes).unwrap();
    assert!(store.get_image().is_some());

    let tokenizer = test_tokenizer();
    let (bos, eos) = sequence_markers(&tokenizer);
    let config = OrchestratorConfig::standard(Some(bos), Some(eos));
    let outcomes = vec![
        DecodeOutcome::Token(3),
        DecodeOutcome::Token(eos),
    ];
    let (events, persisted) = run_to_end(config, DecodeOutcome::Token(2), &outcomes, &mut store);
    assert!(events.len() >= 1);
    assert!(persisted);

    let text = final_decode(&store, &tokenizer).unwrap();
    assert!(text.contains("hello"));
    assert!(text.contains("world"));
}
