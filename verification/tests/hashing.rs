use invoicex::hashing::{hash, verify};
use sha2::Digest;

fn salty(salt: &str) -> [u8; 16] {
    let bytes = salt.as_bytes();
    if bytes.len() != 16 {
        panic!("Invalid salt length");
    }

    let mut result = [0u8; 16];
    for idx in 0..bytes.len() {
        result[idx] = bytes[idx];
    }

    result
}

#[test]
fn utf8() {
    let password = r#"1Ç¯;Ø”æ´²ñ’¡lÙ¯>çµå¸ t0ò´¢·òˆšğ ºêª²2É§Şé¡¬Ø£zí˜•Îò¢Ÿò‡¶”CÇ£>ğ¾Š…Ü±
            Æ’dóš¯‹ë­”î„ŠÍ„ò¾ „Ãšòˆ­¦å»ƒiå¢¼ñº­ºë¼£çŠ”G:çµ«Öµè—¦áOñƒ¾´0Ì†Æ~ò³¯ î„Î¼ñ…²Â¡
            ò€›§ñ¼¸Ò…ó‡›šâ–Ó¥à®Œ}ï©£ìªŠñ†·šè©ç°Ú‹ò„”µ~ÃŠÎ‚æ¹°Çˆò¯ƒó”¬È‘)Ï½e0Bİ»óº¦ ê¯§G
            [ñ¯¹£Ùªì¦¯Pñ„•¤ğ—š•Ä˜;ç‹¥#ñ†¤ë¿‡+kÙ„Ş¬ó¿§¾Ã°zj2å“³nÜì–‚ñ°…Ö‡ÜßÔèŸ
            ßºÃ¡JÕÏ´QÑ²ä†‘äšå¤¸Ê˜Qê’¾ã–Šòµ¤…ï“ğ«¨»é¨ŒÓ¼ñ±¢»Õ¿ï¿½Ô¹!Ö¦j"ó®¢ë´¸ò°²Òô™Ÿ"#;

    assert!(hash(password, salty("0123456789ABCDEF"), "Baz").is_ok());

    let password = r#"ê©˜>Ãµé˜­Üªò¤™©ÔÊ¢ÎO
            ñ—•Ä“ğ¼–òœ¬³ó€¤¬ñ˜°{ò—²’Øƒ@
            ?1æœ¼ê°—Í´ò»–œãˆŒôŒŸ´æš»F
            äº’Oå—ñ§ ™æŒEò¨ƒ¬<ñ¨‹¥Ğ³
            ó§¬§êƒÙ›ïŠÕ”6ä²‹Ú“Päƒ©
            Å„Êñ–¸‹ÆŠñ›¨ó„…<ï¿½fïŠ¹
            Kó§¾´åŠ‰Úó²Ÿ¶ô­ô‰šñ­¶™ñ¾ ±-
            Å¥Û§ÖšÓŸ4ñššï¿½òº”ò§Ó¾
            óšnæ’éŒBÎ’hñ¸•ï½’İ¢
            ò˜´±â°²ò¨…‚î©ó®¸ ñ§­tá–¥ó¸Ÿë›œ"#;

    assert!(hash(password, salty("0123456789ABCDEF"), "Baz").is_ok());
}

#[test]
fn correct() {
    let salt = "0123456789ABCDEF";
    let password = "XYZ";
    let pepper = "123";

    let hash = hash(password, salty(salt), pepper).unwrap();
    assert!(verify(&hash, &password, pepper).unwrap());
}

#[test]
fn incorrect() {
    let salt = "0123456789ABCDEF";
    let password = "XYZ";
    let password2 = "ABC";
    let pepper = "123";

    let hash = hash(password, salty(salt), pepper).unwrap();
    assert!(!verify(&hash, &password2, pepper).unwrap());
}

#[test]
fn long_password() {
    let password = "ABCDEFGHIJKLMNOPQRSTUVWXYZabcdefghijklmnopqrstuvwxyz123456789!@#$%^&*()_+=-.,/<>?ABCDEFGHIJKLMNOPQRSTUVWXYZabcdefghijklmnopqrstuvwxyz123456789!@#$%^&*()_+=-.,/<>?ABCDEFGHIJKLMNOPQRSTUVWXYZabcdefghijklmnopqrstuvwxyz123456789!@#$%^&*()_+=-.,/<>?";

    assert!(hash(password, salty("0123456789ABCDEF"), "Baz").is_ok());
}

#[test]
fn hash_is_a_bcrypt_text_of_cost_10_in_the_2b_format() {
    let hashed = hash("XYZ", salty("0123456789ABCDEF"), "123").unwrap();
    assert!(hashed.starts_with("$2b$10$"));
    assert_eq!(hashed.len(), 60);
    assert_ne!(hashed, "XYZ");
}

#[test]
fn hash_is_a_function_of_its_arguments() {
    let one = hash("XYZ", salty("0123456789ABCDEF"), "123").unwrap();
    let two = hash("XYZ", salty("0123456789ABCDEF"), "123").unwrap();
    assert_eq!(one, two);
}

#[test]
fn hash_depends_on_password_salt_and_pepper() {
    let base = hash("XYZ", salty("0123456789ABCDEF"), "123").unwrap();
    assert_ne!(base, hash("XYZ ", salty("0123456789ABCDEF"), "123").unwrap());
    assert_ne!(base, hash("XYZ", salty("FEDCBA9876543210"), "123").unwrap());
    assert_ne!(base, hash("XYZ", salty("0123456789ABCDEF"), "124").unwrap());
}

#[test]
fn password_and_pepper_are_digested_back_to_back() {
    let joined = hash("XYZ1", salty("0123456789ABCDEF"), "23").unwrap();
    assert!(verify(&joined, "XYZ", "123").unwrap());
    assert!(verify(&joined, "", "XYZ123").unwrap());
}

#[test]
fn verify_needs_the_same_pepper() {
    let hashed = hash("XYZ", salty("0123456789ABCDEF"), "123").unwrap();
    assert!(!verify(&hashed, "XYZ", "321").unwrap());
}

#[test]
fn verify_refuses_a_text_that_is_no_hash() {
    assert!(verify("not a hash", "XYZ", "123").is_err());
    assert!(verify("", "XYZ", "123").is_err());
    assert!(verify("$2b$10$short", "XYZ", "123").is_err());
}

#[test]
fn verify_reads_the_other_bcrypt_versions() {
    let hashed = hash("XYZ", salty("0123456789ABCDEF"), "123").unwrap();
    let as_2y = hashed.replacen("$2b$", "$2y$", 1);
    assert!(verify(&as_2y, "XYZ", "123").unwrap());
}

#[test]
fn hash_is_bcrypt_of_the_base64_sha512_256_digest() {
    for (password, pepper, salt) in [
        ("XYZ", "123", "0123456789ABCDEF"),
        ("", "", "FEDCBA9876543210"),
        ("p\u{e4}ssw\u{f6}rd", "\u{1f336}", "0123456789abcdef"),
    ] {
        let mut hasher = sha2::Sha512_256::new();
        hasher.update(password);
        hasher.update(pepper);
        let digest = hasher.finalize();
        assert_eq!(digest.len(), 32);
        let text = base64::encode(digest);
        assert_eq!(text.len(), 44);
        let expected = bcrypt::hash_with_salt(&text, 10, salty(salt))
            .unwrap()
            .format_for_version(bcrypt::Version::TwoB);
        assert_eq!(hash(password, salty(salt), pepper).unwrap(), expected);
        assert!(bcrypt::verify(&text, &expected).unwrap());
        assert!(verify(&expected, password, pepper).unwrap());
    }
}

#[test]
fn long_passwords_are_told_apart_beyond_72_bytes() {
    let head = "a".repeat(100);
    let one = format!("{head}1");
    let two = format!("{head}2");
    let hashed = hash(&one, salty("0123456789ABCDEF"), "pepper").unwrap();
    assert!(verify(&hashed, &one, "pepper").unwrap());
    assert!(!verify(&hashed, &two, "pepper").unwrap());
}
