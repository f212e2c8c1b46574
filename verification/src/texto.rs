//! Operações verificadas sobre textos: comparação, concatenação, prefixos e
//! a decodificação UTF-8 dos bytes lidos de um arquivo.

use vstd::prelude::*;
use vstd::utf8::decode_utf8;
use vstd::utf8::valid_utf8;

verus! {

/// Decodifica bytes UTF-8 num texto.
///
/// Apoia-se em `String::from_utf8`: aceita exatamente os bytes UTF-8 válidos
/// e os decodifica na sequência de caracteres que eles escrevem, como a
/// especificação de UTF-8 de vstd os define.
#[verifier::external_body]
pub fn bytes_para_texto(dados: &Vec<u8>) -> (r: Option<String>)
    ensures
        (r is Some) == valid_utf8(dados@),
        r is Some ==> r->Some_0@ == decode_utf8(dados@),
{
    match String::from_utf8(dados.clone()) {
        Ok(s) => Some(s),
        Err(_) => None,
    }
}

/// Um caractere é alfanumérico segundo as tabelas de Unicode. O valor em si
/// é dado pela biblioteca padrão e não é axiomatizado aqui além dos casos
/// ASCII evidentes.
pub uninterp spec fn alfanumerico(c: char) -> bool;

/// Decide se um caractere é alfanumérico.
///
/// Apoia-se em `char::is_alphanumeric`: função somente do caractere. Letras e
/// dígitos ASCII são alfanuméricos; sublinhado, hífen e barra não são.
#[verifier::external_body]
pub fn eh_alfanumerico(c: char) -> (r: bool)
    ensures
        r == alfanumerico(c),
        ('a' <= c && c <= 'z') || ('A' <= c && c <= 'Z') || ('0' <= c && c <= '9') ==> r,
        c == '_' || c == '-' || c == '/' ==> !r,
{
    c.is_alphanumeric()
}

/// Acrescenta um caractere ao fim de um texto.
///
/// Apoia-se em `String::push`.
#[verifier::external_body]
pub fn texto_poe_char(s: &mut String, c: char)
    ensures
        final(s)@ == old(s)@.push(c),
{
    s.push(c)
}

/// Compara dois textos caractere a caractere.
pub fn textos_iguais(a: &str, b: &str) -> (r: bool)
    ensures
        r == (a@ == b@),
{
    let na = a.unicode_len();
    let nb = b.unicode_len();
    if na != nb {
        proof {
            assert(a@ != b@) by {
                assert(a@.len() != b@.len());
            }
        }
        return false;
    }
    let mut i: usize = 0;
    while i < na
        invariant
            na == a@.len(),
            nb == b@.len(),
            na == nb,
            i <= na,
            forall|j: int| 0 <= j < i ==> a@[j] == b@[j],
        decreases na - i,
    {
        if a.get_char(i) != b.get_char(i) {
            return false;
        }
        i += 1;
    }
    proof {
        assert(a@ =~= b@);
    }
    true
}

/// Concatena dois textos.
pub fn concatenar(a: &str, b: &str) -> (r: String)
    ensures
        r@ == a@ + b@,
{
    let mut r = a.to_owned();
    r.append(b);
    r
}

/// Se `s` começa com `prefixo`, devolve o restante; senão, nada.
pub fn remover_prefixo(s: &str, prefixo: &str) -> (r: Option<String>)
    ensures
        r is Some <==> (s@.len() >= prefixo@.len() && s@.subrange(0, prefixo@.len() as int)
            == prefixo@),
        r is Some ==> s@ == prefixo@ + r->Some_0@,
{
    let ns = s.unicode_len();
    let np = prefixo.unicode_len();
    if ns < np {
        return None;
    }
    let mut i: usize = 0;
    while i < np
        invariant
            ns == s@.len(),
            np == prefixo@.len(),
            np <= ns,
            i <= np,
            forall|j: int| 0 <= j < i ==> s@[j] == prefixo@[j],
        decreases np - i,
    {
        if s.get_char(i) != prefixo.get_char(i) {
            proof {
                assert(s@.subrange(0, np as int) != prefixo@) by {
                    assert(s@.subrange(0, np as int)[i as int] != prefixo@[i as int]);
                }
            }
            return None;
        }
        i += 1;
    }
    let resto = s.substring_char(np, ns);
    proof {
        assert(s@.subrange(0, np as int) =~= prefixo@);
        assert(s@ =~= prefixo@ + s@.subrange(np as int, ns as int));
    }
    Some(resto.to_owned())
}

} // verus!
