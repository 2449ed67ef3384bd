use ldui::keygen::{
    accept_payload, application_name, authorization_url, begin_key_request, decrypt_payload,
    generate_nonce, site_url, strip_whitespace, trim, wants_to_save, KeyError, UserApiKeyPayload,
};

fn payload(nonce: &str) -> UserApiKeyPayload {
    UserApiKeyPayload { key: "k".to_string(), nonce: nonce.to_string(), push: false, api: 4 }
}

#[test]
fn address_of_the_request_is_built_from_its_parts() {
    let url = authorization_url(
        "https://linux.do",
        "Linux Do 终端客户端",
        "id-1",
        "PEM\n+/=",
        "n o",
    );
    assert_eq!(
        url,
        "https://linux.do/user-api-key/new?application_name=Linux%20Do%20%E7%BB%88%E7%AB%AF%E5\
         %AE%A2%E6%88%B7%E7%AB%AF&client_id=id-1&scopes=read&public_key=PEM%0A%2B%2F%3D&nonce=n%20o"
    );
}

#[test]
fn plain_values_stand_in_the_address_as_they_are() {
    assert_eq!(
        authorization_url("s", "Az09-._~", "", "", ""),
        "s/user-api-key/new?application_name=Az09-._~&client_id=&scopes=read&public_key=&nonce="
    );
    assert_eq!(
        authorization_url("", "a b&c=d/é~_-.", "", "", ""),
        "/user-api-key/new?application_name=a%20b%26c%3Dd%2F%C3%A9~_-.&client_id=&scopes=read\
         &public_key=&nonce="
    );
}

#[test]
fn nonce_is_base64_of_thirty_two_bytes() {
    let nonce = generate_nonce();
    assert_eq!(nonce.len(), 44);
    assert!(nonce.ends_with('='));
    assert!(nonce
        .chars()
        .all(|c| c.is_ascii_alphanumeric() || c == '+' || c == '/' || c == '='));
    assert_ne!(nonce, generate_nonce());
}

#[test]
fn white_space_is_taken_out_of_the_payload() {
    assert_eq!(strip_whitespace(" a\tb\n c\u{3000}d \r\n"), "abcd");
    assert_eq!(strip_whitespace(""), "");
    assert_eq!(strip_whitespace("abc"), "abc");
    assert_eq!(strip_whitespace(" \n\t"), "");
}

#[test]
fn trimming_takes_both_ends_only() {
    let chars: Vec<char> = "  a b \n".chars().collect();
    let kept: String = trim(&chars).iter().collect();
    assert_eq!(kept, "a b");
    let blank: Vec<char> = " \t ".chars().collect();
    assert_eq!(trim(&blank), Vec::<char>::new());
    assert_eq!(trim(&[]), Vec::<char>::new());
}

#[test]
fn answer_with_the_nonce_of_the_request_is_accepted() {
    let accepted = accept_payload(payload("abc"), "abc");
    assert_eq!(accepted.map(|result| result.payload.key), Ok("k".to_string()));
}

#[test]
fn answer_with_another_nonce_is_refused() {
    assert_eq!(
        accept_payload(payload("abc"), "abd").map(|result| result.payload.key),
        Err(KeyError::NonceMismatch)
    );
    assert_eq!(
        accept_payload(payload("abc"), "ABC").map(|result| result.payload.key),
        Err(KeyError::NonceMismatch)
    );
    assert_eq!(
        accept_payload(payload(""), "abc").map(|result| result.payload.key),
        Err(KeyError::NonceMismatch)
    );
}

#[test]
fn typed_address_of_the_forum_is_tidied() {
    assert_eq!(site_url("  https://x.org/ \n"), "https://x.org");
    assert_eq!(site_url("https://x.org"), "https://x.org");
    assert_eq!(site_url("https://x.org//"), "https://x.org/");
    assert_eq!(site_url(""), "https://linux.do");
    assert_eq!(site_url(" \n"), "https://linux.do");
    assert_eq!(site_url("/"), "");
}

#[test]
fn typed_name_of_the_client_is_tidied() {
    assert_eq!(application_name(" my client \n"), "my client");
    assert_eq!(application_name("\n"), "Linux Do 终端客户端");
    assert_eq!(application_name(""), "Linux Do 终端客户端");
}

#[test]
fn only_a_plain_yes_saves_the_key() {
    assert!(wants_to_save("y"));
    assert!(wants_to_save(" Y\n"));
    assert!(wants_to_save("y\r\n"));
    assert!(!wants_to_save("yes"));
    assert!(!wants_to_save("n"));
    assert!(!wants_to_save(""));
    assert!(!wants_to_save("y y"));
}

#[test]
fn request_is_prepared_and_its_answer_read() {
    let request = match begin_key_request("https://linux.do", "test client") {
        Ok(request) => request,
        Err(reason) => panic!("no request: {:?}", reason),
    };
    assert_eq!(request.nonce.len(), 44);
    assert_eq!(request.client_id.len(), 36);
    assert!(request.public_key_pem.starts_with("-----BEGIN PUBLIC KEY-----\n"));
    assert_eq!(
        request.url,
        authorization_url(
            "https://linux.do",
            "test client",
            &request.client_id,
            &request.public_key_pem,
            &request.nonce
        )
    );
    assert!(request.url.starts_with(
        "https://linux.do/user-api-key/new?application_name=test%20client&client_id="
    ));

    assert_eq!(decrypt_payload(&request, "not base64!"), Err(KeyError::Encoding));
    assert_eq!(decrypt_payload(&request, "QUJD"), Err(KeyError::Decryption));

    let answer = "{\"key\":\"abc\",\"nonce\":\"n\",\"push\":false,\"api\":4}";
    let public_key = rsa::RsaPublicKey::from(&request.private_key);
    let encrypted = public_key
        .encrypt(&mut rand_core::OsRng, rsa::Pkcs1v15Encrypt, answer.as_bytes())
        .unwrap();
    let encoded = base64::Engine::encode(&base64::engine::general_purpose::STANDARD, &encrypted);
    let mut pasted = String::new();
    for (i, c) in encoded.chars().enumerate() {
        if i % 40 == 0 {
            pasted.push_str("\n  ");
        }
        pasted.push(c);
    }
    pasted.push_str("\r\n");
    assert_eq!(decrypt_payload(&request, &pasted), Ok(answer.to_string()));

    let not_text = public_key
        .encrypt(&mut rand_core::OsRng, rsa::Pkcs1v15Encrypt, &[0xff, 0xfe, 0x80])
        .unwrap();
    let encoded = base64::Engine::encode(&base64::engine::general_purpose::STANDARD, &not_text);
    assert_eq!(decrypt_payload(&request, &encoded), Err(KeyError::Text));
}
