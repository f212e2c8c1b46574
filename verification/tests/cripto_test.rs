//! Testes dos resumos criptográficos: hash de PIN com sal, verificação e
//! geração de sal.

use vaultcraft::cripto::gerar_salt;
use vaultcraft::cripto::hash_pin;
use vaultcraft::cripto::verificar_pin;

#[test]
fn teste_hash_pin_consistente() {
    // O mesmo PIN com o mesmo sal deve produzir o mesmo hash.
    let pin = "1234";
    let salt = "salt_de_teste_fixo";
    let hash1 = hash_pin(pin, salt);
    let hash2 = hash_pin(pin, salt);
    assert_eq!(hash1, hash2, "Hashes devem ser iguais para mesma entrada");
}

#[test]
fn teste_hash_pin_diferente_com_salt_diferente() {
    // O mesmo PIN com sais diferentes deve produzir hashes diferentes.
    let pin = "1234";
    let hash1 = hash_pin(pin, "salt_a");
    let hash2 = hash_pin(pin, "salt_b");
    assert_ne!(hash1, hash2, "Hashes devem diferir com salts diferentes");
}

#[test]
fn teste_verificar_pin_correto() {
    let pin = "meupin123";
    let salt = gerar_salt();
    let hash = hash_pin(pin, &salt);
    assert!(verificar_pin(pin, &hash, &salt), "PIN correto deve ser aceito");
}

#[test]
fn teste_verificar_pin_incorreto() {
    let pin = "meupin123";
    let salt = gerar_salt();
    let hash = hash_pin(pin, &salt);
    assert!(!verificar_pin("pin_errado", &hash, &salt), "PIN errado deve ser rejeitado");
}

#[test]
fn teste_gerar_salt_unico() {
    // Cada sal gerado deve ser único e ter 64 caracteres hexadecimais.
    let salt1 = gerar_salt();
    let salt2 = gerar_salt();
    assert_ne!(salt1, salt2, "Salts devem ser únicos");
    assert_eq!(salt1.len(), 64, "Salt deve ter 64 caracteres hexadecimais");
}

#[test]
fn hash_de_pin_vazio_com_sal_vazio_e_o_sha256_do_vazio() {
    // Com PIN e sal vazios, o hash é o SHA-256 da sequência vazia, um valor
    // conhecido; isto amarra o invólucro de hash à biblioteca real.
    assert_eq!(
        hash_pin("", ""),
        "e3b0c44298fc1c149afbf4c8996fb92427ae41e4649b934ca495991b7852b855"
    );
    assert_eq!(
        hash_pin("", ""),
        hex::encode(<sha2::Sha256 as sha2::Digest>::digest(b""))
    );
}

#[test]
fn hash_de_pin_concatena_sal_e_pin() {
    // SHA-256(sal + pin), com o sal primeiro.
    let esperado = hex::encode(<sha2::Sha256 as sha2::Digest>::digest(b"salpin"));
    assert_eq!(hash_pin("pin", "sal"), esperado);
}
