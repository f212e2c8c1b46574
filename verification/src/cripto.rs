//! Resumos criptográficos do cofre: o resumo SHA-256 em hexadecimal usado
//! pelos manifestos de backup e o hash de PIN com sal.

use vstd::prelude::*;
use vstd::utf8::encode_utf8;

use crate::texto::textos_iguais;

verus! {

/// O resumo SHA-256 de uma sequência de bytes, escrito em hexadecimal
/// minúsculo. Função somente dos bytes de entrada; o valor em si é dado pela
/// biblioteca externa de hash e não é axiomatizado aqui.
pub uninterp spec fn hash_sha256_de(dados: Seq<u8>) -> Seq<char>;

/// Calcula o resumo SHA-256 de um trecho de bytes, em hexadecimal minúsculo.
///
/// Apoia-se em `sha2::Sha256` e `hex::encode`: o resumo tem 32 bytes e cada
/// byte vira dois dígitos hexadecimais, logo 64 caracteres.
#[verifier::external_body]
pub(crate) fn calcular_hash_bytes(dados: &[u8]) -> (r: String)
    ensures
        r@ == hash_sha256_de(dados@),
        r@.len() == 64,
{
    hex::encode(<sha2::Sha256 as sha2::Digest>::digest(dados))
}

/// Gera um sal aleatório de 64 caracteres hexadecimais para o hash de PIN.
///
/// Apoia-se em `uuid::Uuid::new_v4` como fonte de entropia: cada UUID no
/// formato simples tem 32 dígitos hexadecimais minúsculos, e dois
/// concatenados dão 64. O valor é aleatório; nada mais é prometido além do
/// comprimento e do alfabeto. Se o gerador de números aleatórios do sistema
/// falhar, a biblioteca externa interrompe o processo — uma falha de
/// ambiente, como uma falta de memória, e não um retorno.
#[verifier::external_body]
pub fn gerar_salt() -> (r: String)
    ensures
        r@.len() == 64,
        forall|i: int|
            0 <= i < r@.len() ==> ('0' <= #[trigger] r@[i] && r@[i] <= '9') || ('a' <= r@[i]
                && r@[i] <= 'f'),
{
    let parte1 = uuid::Uuid::new_v4().simple().to_string();
    let parte2 = uuid::Uuid::new_v4().simple().to_string();
    format!("{}{}", parte1, parte2)
}

/// Calcula o hash de um PIN com sal: SHA-256 dos bytes do sal seguidos dos
/// bytes do PIN, em hexadecimal minúsculo. O sal vem primeiro para dificultar
/// ataques de extensão de comprimento.
pub fn hash_pin(pin: &str, salt: &str) -> (r: String)
    ensures
        r@ == hash_sha256_de(encode_utf8(salt@) + encode_utf8(pin@)),
        r@.len() == 64,
{
    let mut dados = salt.as_bytes_vec();
    let bytes_pin = pin.as_bytes_vec();
    let mut i: usize = 0;
    while i < bytes_pin.len()
        invariant
            i <= bytes_pin@.len(),
            dados@ == encode_utf8(salt@) + bytes_pin@.take(i as int),
        decreases bytes_pin@.len() - i,
    {
        dados.push(bytes_pin[i]);
        proof {
            assert(encode_utf8(salt@) + bytes_pin@.take(i as int) + seq![bytes_pin@[i as int]]
                =~= encode_utf8(salt@) + bytes_pin@.take(i + 1));
        }
        i += 1;
    }
    proof {
        assert(dados@ =~= encode_utf8(salt@) + encode_utf8(pin@)) by {
            assert(bytes_pin@.take(bytes_pin@.len() as int) =~= bytes_pin@);
        }
    }
    calcular_hash_bytes(dados.as_slice())
}

/// Confere se um PIN corresponde ao hash armazenado, recalculando o hash com
/// o mesmo sal e comparando os textos.
pub fn verificar_pin(pin: &str, hash_armazenado: &str, salt: &str) -> (r: bool)
    ensures
        r == (hash_sha256_de(encode_utf8(salt@) + encode_utf8(pin@)) == hash_armazenado@),
{
    let calculado = hash_pin(pin, salt);
    textos_iguais(calculado.as_str(), hash_armazenado)
}

} // verus!
