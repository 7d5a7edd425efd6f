use puchi_sekai::config::{default_ipc_socket_address, Config};
use puchi_sekai::presentation::{primary_profile, secondary_profile};
use puchi_sekai::state::AppState;

fn test_config() -> Config {
    Config {
        initial_model_data_path: String::from("/data/model.zip"),
        system_prompt_file_path: String::from("/data/system_prompt.txt"),
        openai_api_key: String::from("test-key"),
        ipc_socket_address: default_ipc_socket_address(),
    }
}

#[test]
fn model_asset_encoded_at_startup() {
    let st = AppState::new(test_config(), &b"abc".to_vec(), String::from("sys"));
    assert_eq!(st.model_data_b64, "YWJj");
    assert_eq!(st.model_data_b64(), "YWJj");
}

#[test]
fn model_asset_encoding_pads() {
    let st = AppState::new(test_config(), &b"a".to_vec(), String::from("sys"));
    assert_eq!(st.model_data_b64, "YQ==");
    let st = AppState::new(test_config(), &b"ab".to_vec(), String::from("sys"));
    assert_eq!(st.model_data_b64, "YWI=");
    let st = AppState::new(test_config(), &b"abcd".to_vec(), String::from("sys"));
    assert_eq!(st.model_data_b64, "YWJjZA==");
}

#[test]
fn empty_model_asset_encodes_empty() {
    let st = AppState::new(test_config(), &Vec::new(), String::from("sys"));
    assert_eq!(st.model_data_b64, "");
}

#[test]
fn binary_model_asset_encodes() {
    let st = AppState::new(test_config(), &vec![0u8, 255, 16, 128], String::from("sys"));
    assert_eq!(st.model_data_b64, "AP8QgA==");
}

#[test]
fn system_prompt_handed_out() {
    let st = AppState::new(test_config(), &Vec::new(), String::from("answer briefly"));
    assert_eq!(st.system_prompt(), "answer briefly");
}

#[test]
fn primary_profile_values() {
    let p = primary_profile();
    assert_eq!(p.width, 300);
    assert_eq!(p.height, 650);
    assert!(p.anchor_right && p.anchor_bottom);
    assert!(p.top_layer);
    assert!(p.click_through);
    assert!(!p.centered);
    assert!(p.start_visible);
}

#[test]
fn secondary_profile_values() {
    let p = secondary_profile();
    assert_eq!(p.width, 600);
    assert_eq!(p.height, 600);
    assert!(p.centered);
    assert!(!p.decorations);
    assert!(!p.start_visible);
    assert!(!p.click_through);
}
