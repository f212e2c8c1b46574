//! O registro `manifesto.json` de um arquivo `.vaultbackup`: sua escrita
//! canônica em bytes, o analisador estrito dessa escrita e a prova de que um
//! manifesto bem formado vai e volta sem perda.

use vstd::prelude::*;
use vstd::utf8::decode_utf8;
use vstd::utf8::encode_utf8;
use vstd::utf8::valid_utf8;

use crate::erro::ErroBackup;
use crate::json::analisa_numero;
use crate::json::analisa_texto;
use crate::json::analisar_numero;
use crate::json::analisar_texto;
use crate::json::ascii_de;
use crate::json::casar_literal;
use crate::json::codifica_texto_bytes;
use crate::json::comeca_com;
use crate::json::decimal;
use crate::json::lema_analisa_numero_de_decimal;
use crate::json::lema_analisa_texto_de_codificado;
use crate::json::lema_analisa_texto_limites;
use crate::json::lema_comeca_com_concat;
use crate::json::poe_decimal;
use crate::json::poe_literal;
use crate::json::poe_texto_json;
use crate::modelo::manifesto_bem_formado;
use crate::modelo::ManifestoBackup;
use crate::modelo::ManifestoVista;
use crate::texto::bytes_para_texto;

verus! {

// =============================================================================
// Forma crua: campos de texto ainda em bytes UTF-8
// =============================================================================

/// Um manifesto com os campos de texto ainda em bytes, como escritos no
/// arquivo.
pub ghost struct ManifestoCru {
    pub versao_app: Seq<u8>,
    pub versao_schema: int,
    pub data: Seq<u8>,
    pub total_itens: int,
    pub total_anexos: int,
    pub hash_banco: Seq<u8>,
    pub hashes: Seq<(Seq<u8>, Seq<u8>)>,
}

/// Os bytes de cada campo de texto de um manifesto.
pub open spec fn bytes_do_manifesto(m: ManifestoVista) -> ManifestoCru {
    ManifestoCru {
        versao_app: encode_utf8(m.versao_app),
        versao_schema: m.versao_schema,
        data: encode_utf8(m.data),
        total_itens: m.total_itens,
        total_anexos: m.total_anexos,
        hash_banco: encode_utf8(m.hash_banco),
        hashes: m.hashes_anexos.map_values(
            |p: (Seq<char>, Seq<char>)| (encode_utf8(p.0), encode_utf8(p.1)),
        ),
    }
}

/// O manifesto de caracteres que uma forma crua escreve, quando todos os seus
/// campos de texto são UTF-8 válido.
pub open spec fn manifesto_de_cru(c: ManifestoCru) -> Option<ManifestoVista> {
    if valid_utf8(c.versao_app) && valid_utf8(c.data) && valid_utf8(c.hash_banco) && (forall|
        i: int,
    |
        0 <= i < c.hashes.len() ==> valid_utf8((#[trigger] c.hashes[i]).0) && valid_utf8(
            c.hashes[i].1,
        )) {
        Some(
            ManifestoVista {
                versao_app: decode_utf8(c.versao_app),
                versao_schema: c.versao_schema,
                data: decode_utf8(c.data),
                total_itens: c.total_itens,
                total_anexos: c.total_anexos,
                hash_banco: decode_utf8(c.hash_banco),
                hashes_anexos: c.hashes.map_values(
                    |p: (Seq<u8>, Seq<u8>)| (decode_utf8(p.0), decode_utf8(p.1)),
                ),
            },
        )
    } else {
        None
    }
}

// =============================================================================
// Escrita canônica
// =============================================================================

/// Os pares `"chave":"valor"` do objeto de resumos, separados por vírgula e
/// fechados com `}`. A concatenação associa à direita para que as provas de
/// ida e volta descasquem um trecho por vez.
pub open spec fn codifica_pares(pares: Seq<(Seq<u8>, Seq<u8>)>) -> Seq<u8>
    decreases pares.len(),
{
    if pares.len() == 0 {
        seq![125u8]
    } else {
        seq![34u8] + (codifica_texto_bytes(pares[0].0) + (seq![58u8, 34u8] + (
        codifica_texto_bytes(pares[0].1) + (if pares.len() == 1 {
            seq![125u8]
        } else {
            seq![44u8] + codifica_pares(pares.drop_first())
        }))))
    }
}

/// A escrita canônica de um manifesto cru: um objeto JSON com as chaves em
/// ordem fixa e sem espaços.
pub open spec fn codifica_manifesto_cru(c: ManifestoCru) -> Seq<u8> {
    ascii_de("{\"versao_app\":\""@) + (codifica_texto_bytes(c.versao_app) + (ascii_de(
        ",\"versao_schema\":"@,
    ) + (decimal(c.versao_schema) + (ascii_de(",\"data\":\""@) + (codifica_texto_bytes(c.data) + (
    ascii_de(",\"total_itens\":"@) + (decimal(c.total_itens) + (ascii_de(",\"total_anexos\":"@)
        + (decimal(c.total_anexos) + (ascii_de(",\"hash_banco\":\""@) + (codifica_texto_bytes(
        c.hash_banco,
    ) + (ascii_de(",\"hashes_anexos\":{"@) + (codifica_pares(c.hashes)
        + seq![125u8])))))))))))))
}

/// A escrita canônica de um manifesto.
pub open spec fn codifica_manifesto(m: ManifestoVista) -> Seq<u8> {
    codifica_manifesto_cru(bytes_do_manifesto(m))
}

// =============================================================================
// Analisador estrito
// =============================================================================

/// Os dados trazem o literal ASCII `lit` em `pos`; em caso afirmativo, a
/// posição logo após ele.
pub open spec fn fim_literal(d: Seq<u8>, pos: int, lit: Seq<char>) -> Option<int> {
    if comeca_com(d, pos, ascii_de(lit)) {
        Some(pos + lit.len() as int)
    } else {
        None
    }
}

/// Lê os pares do objeto de resumos a partir de `pos` (logo após o `{`),
/// até o `}` que o fecha.
pub open spec fn analisa_pares(d: Seq<u8>, pos: int) -> Option<(Seq<(Seq<u8>, Seq<u8>)>, int)>
    decreases d.len() - pos,
    when pos >= 0
    via analisa_pares_decresce
{
    if pos >= d.len() {
        None
    } else if d[pos] == 125 {
        Some((seq![], pos + 1))
    } else if d[pos] == 34 {
        match analisa_texto(d, pos + 1) {
            None => None,
            Some((chave, p1)) => {
                if p1 + 1 < d.len() && d[p1] == 58 && d[p1 + 1] == 34 {
                    match analisa_texto(d, p1 + 2) {
                        None => None,
                        Some((valor, p2)) => {
                            if p2 < d.len() && d[p2] == 44 {
                                match analisa_pares(d, p2 + 1) {
                                    None => None,
                                    Some((resto, p3)) => Some((seq![(chave, valor)] + resto, p3)),
                                }
                            } else if p2 < d.len() && d[p2] == 125 {
                                Some((seq![(chave, valor)], p2 + 1))
                            } else {
                                None
                            }
                        },
                    }
                } else {
                    None
                }
            },
        }
    } else {
        None
    }
}

#[via_fn]
proof fn analisa_pares_decresce(d: Seq<u8>, pos: int) {
    if 0 <= pos < d.len() && d[pos] != 125 && d[pos] == 34 {
        if analisa_texto(d, pos + 1) is Some {
            lema_analisa_texto_limites(d, pos + 1);
            let p1 = analisa_texto(d, pos + 1)->Some_0.1;
            if p1 + 1 < d.len() && d[p1] == 58 && d[p1 + 1] == 34 {
                if analisa_texto(d, p1 + 2) is Some {
                    lema_analisa_texto_limites(d, p1 + 2);
                }
            }
        }
    }
}

/// Lê um manifesto inteiro: o objeto canônico, do primeiro byte ao último.
/// Os números devem caber nos inteiros do registro executável.
pub open spec fn analisa_manifesto_cru(d: Seq<u8>) -> Option<ManifestoCru> {
    match fim_literal(d, 0, "{\"versao_app\":\""@) {
        None => None,
        Some(p1) => match analisa_texto(d, p1) {
            None => None,
            Some((versao_app, p2)) => match fim_literal(d, p2, ",\"versao_schema\":"@) {
                None => None,
                Some(p3) => match analisa_numero(d, p3) {
                    None => None,
                    Some((versao_schema, p4)) => if versao_schema > i32::MAX {
                        None
                    } else {
                        match fim_literal(d, p4, ",\"data\":\""@) {
                            None => None,
                            Some(p5) => match analisa_texto(d, p5) {
                                None => None,
                                Some((data, p6)) => match fim_literal(d, p6, ",\"total_itens\":"@) {
                                    None => None,
                                    Some(p7) => match analisa_numero(d, p7) {
                                        None => None,
                                        Some((total_itens, p8)) => if total_itens > i64::MAX {
                                            None
                                        } else {
                                            analisa_manifesto_cru_resto(
                                                d,
                                                p8,
                                                versao_app,
                                                versao_schema,
                                                data,
                                                total_itens,
                                            )
                                        },
                                    },
                                },
                            },
                        }
                    },
                },
            },
        },
    }
}

/// A metade final do manifesto, de `total_anexos` em diante.
pub open spec fn analisa_manifesto_cru_resto(
    d: Seq<u8>,
    p8: int,
    versao_app: Seq<u8>,
    versao_schema: int,
    data: Seq<u8>,
    total_itens: int,
) -> Option<ManifestoCru> {
    match fim_literal(d, p8, ",\"total_anexos\":"@) {
        None => None,
        Some(p9) => match analisa_numero(d, p9) {
            None => None,
            Some((total_anexos, p10)) => {
                if total_anexos > i64::MAX {
                    None
                } else {
                    match fim_literal(d, p10, ",\"hash_banco\":\""@) {
                        None => None,
                        Some(p11) => {
                            match analisa_texto(d, p11) {
                                None => None,
                                Some((hash_banco, p12)) => {
                                    match fim_literal(d, p12, ",\"hashes_anexos\":{"@) {
                                        None => None,
                                        Some(p13) => {
                                            match analisa_pares(d, p13) {
                                                None => None,
                                                Some((hashes, p14)) => {
                                                    if p14 + 1 == d.len() && p14 < d.len()
                                                        && d[p14] == 125 {
                                                        Some(ManifestoCru {
                                                            versao_app,
                                                            versao_schema,
                                                            data,
                                                            total_itens,
                                                            total_anexos,
                                                            hash_banco,
                                                            hashes,
                                                        })
                                                    } else {
                                                        None
                                                    }
                                                },
                                            }
                                        },
                                    }
                                },
                            }
                        },
                    }
                }
            },
        },
    }
}

/// Lê um manifesto dos bytes de `manifesto.json`: a escrita canônica inteira,
/// com todos os campos de texto em UTF-8 válido.
pub open spec fn analisa_manifesto(d: Seq<u8>) -> Option<ManifestoVista> {
    match analisa_manifesto_cru(d) {
        None => None,
        Some(c) => manifesto_de_cru(c),
    }
}

// =============================================================================
// Ida e volta
// =============================================================================

/// Sobre dados que trazem os pares codificados, o analisador devolve
/// exatamente os pares originais.
#[verifier::rlimit(100)]
#[verifier::spinoff_prover]
pub proof fn lema_analisa_pares_de_codificado(
    d: Seq<u8>,
    pos: int,
    pares: Seq<(Seq<u8>, Seq<u8>)>,
)
    requires
        comeca_com(d, pos, codifica_pares(pares)),
    ensures
        analisa_pares(d, pos) == Some((pares, pos + codifica_pares(pares).len())),
    decreases pares.len(),
{
    if pares.len() == 0 {
        assert(d.subrange(pos, pos + 1)[0] == d[pos]);
        assert(d[pos] == 125);
        assert(pares =~= Seq::<(Seq<u8>, Seq<u8>)>::empty());
    } else {
        let k = pares[0].0;
        let v = pares[0].1;
        let tail: Seq<u8> = if pares.len() == 1 {
            seq![125u8]
        } else {
            seq![44u8] + codifica_pares(pares.drop_first())
        };
        lema_comeca_com_concat(
            d,
            pos,
            seq![34u8],
            codifica_texto_bytes(k) + (seq![58u8, 34u8] + (codifica_texto_bytes(v) + tail)),
        );
        assert(d[pos] == 34) by {
            assert(d.subrange(pos, pos + 1)[0] == d[pos]);
        }
        lema_comeca_com_concat(
            d,
            pos + 1,
            codifica_texto_bytes(k),
            seq![58u8, 34u8] + (codifica_texto_bytes(v) + tail),
        );
        lema_analisa_texto_de_codificado(d, pos + 1, k);
        let p1 = pos + 1 + codifica_texto_bytes(k).len();
        lema_comeca_com_concat(d, p1, seq![58u8, 34u8], codifica_texto_bytes(v) + tail);
        assert(d[p1] == 58 && d[p1 + 1] == 34) by {
            assert(d.subrange(p1, p1 + 2)[0] == d[p1]);
            assert(d.subrange(p1, p1 + 2)[1] == d[p1 + 1]);
        }
        lema_comeca_com_concat(d, p1 + 2, codifica_texto_bytes(v), tail);
        lema_analisa_texto_de_codificado(d, p1 + 2, v);
        let p2 = p1 + 2 + codifica_texto_bytes(v).len();
        if pares.len() == 1 {
            assert(d[p2] == 125) by {
                assert(d.subrange(p2, p2 + 1)[0] == d[p2]);
            }
            assert(seq![(k, v)] =~= pares);
        } else {
            lema_comeca_com_concat(d, p2, seq![44u8], codifica_pares(pares.drop_first()));
            assert(d[p2] == 44) by {
                assert(d.subrange(p2, p2 + 1)[0] == d[p2]);
            }
            lema_analisa_pares_de_codificado(d, p2 + 1, pares.drop_first());
            assert(seq![(k, v)] + pares.drop_first() =~= pares);
        }
    }
}

/// A escrita canônica de um manifesto cru bem formado é lida de volta sem
/// perda.
#[verifier::rlimit(100)]
#[verifier::spinoff_prover]
pub proof fn lema_manifesto_cru_ida_e_volta(c: ManifestoCru)
    requires
        0 <= c.versao_schema <= i32::MAX,
        0 <= c.total_itens <= i64::MAX,
        0 <= c.total_anexos <= i64::MAX,
    ensures
        analisa_manifesto_cru(codifica_manifesto_cru(c)) == Some(c),
{
    let d = codifica_manifesto_cru(c);
    let a1 = "{\"versao_app\":\""@;
    let a2 = ",\"versao_schema\":"@;
    let a3 = ",\"data\":\""@;
    let a4 = ",\"total_itens\":"@;
    let a5 = ",\"total_anexos\":"@;
    let a6 = ",\"hash_banco\":\""@;
    let a7 = ",\"hashes_anexos\":{"@;
    reveal_strlit("{\"versao_app\":\"");
    reveal_strlit(",\"versao_schema\":");
    reveal_strlit(",\"data\":\"");
    reveal_strlit(",\"total_itens\":");
    reveal_strlit(",\"total_anexos\":");
    reveal_strlit(",\"hash_banco\":\"");
    reveal_strlit(",\"hashes_anexos\":{");
    assert(comeca_com(d, 0, d)) by {
        assert(d.subrange(0, d.len() as int) =~= d);
    }
    let r2 = codifica_texto_bytes(c.versao_app) + (ascii_de(a2) + (decimal(c.versao_schema) + (
    ascii_de(a3) + (codifica_texto_bytes(c.data) + (ascii_de(a4) + (decimal(c.total_itens) + (
    ascii_de(a5) + (decimal(c.total_anexos) + (ascii_de(a6) + (codifica_texto_bytes(c.hash_banco)
        + (ascii_de(a7) + (codifica_pares(c.hashes) + seq![125u8]))))))))))));
    lema_comeca_com_concat(d, 0, ascii_de(a1), r2);
    let p1 = a1.len() as int;
    let r3 = ascii_de(a2) + (decimal(c.versao_schema) + (ascii_de(a3) + (codifica_texto_bytes(
        c.data,
    ) + (ascii_de(a4) + (decimal(c.total_itens) + (ascii_de(a5) + (decimal(c.total_anexos) + (
    ascii_de(a6) + (codifica_texto_bytes(c.hash_banco) + (ascii_de(a7) + (codifica_pares(c.hashes)
        + seq![125u8])))))))))));
    lema_comeca_com_concat(d, p1, codifica_texto_bytes(c.versao_app), r3);
    lema_analisa_texto_de_codificado(d, p1, c.versao_app);
    let p2 = p1 + codifica_texto_bytes(c.versao_app).len();
    let r4 = decimal(c.versao_schema) + (ascii_de(a3) + (codifica_texto_bytes(c.data) + (ascii_de(
        a4,
    ) + (decimal(c.total_itens) + (ascii_de(a5) + (decimal(c.total_anexos) + (ascii_de(a6) + (
    codifica_texto_bytes(c.hash_banco) + (ascii_de(a7) + (codifica_pares(c.hashes)
        + seq![125u8]))))))))));
    lema_comeca_com_concat(d, p2, ascii_de(a2), r4);
    let p3 = p2 + a2.len();
    let r5 = ascii_de(a3) + (codifica_texto_bytes(c.data) + (ascii_de(a4) + (decimal(
        c.total_itens,
    ) + (ascii_de(a5) + (decimal(c.total_anexos) + (ascii_de(a6) + (codifica_texto_bytes(
        c.hash_banco,
    ) + (ascii_de(a7) + (codifica_pares(c.hashes) + seq![125u8])))))))));
    lema_comeca_com_concat(d, p3, decimal(c.versao_schema), r5);
    assert(d[p3 + decimal(c.versao_schema).len()] == 44) by {
        assert(ascii_de(a3)[0] == 44);
        let o = p3 + decimal(c.versao_schema).len();
        assert(d.subrange(o, o + ascii_de(a3).len() as int)[0] == d[o]);
    }
    lema_analisa_numero_de_decimal(d, p3, c.versao_schema);
    let p4 = p3 + decimal(c.versao_schema).len();
    let r6 = codifica_texto_bytes(c.data) + (ascii_de(a4) + (decimal(c.total_itens) + (ascii_de(
        a5,
    ) + (decimal(c.total_anexos) + (ascii_de(a6) + (codifica_texto_bytes(c.hash_banco) + (
    ascii_de(a7) + (codifica_pares(c.hashes) + seq![125u8]))))))));
    lema_comeca_com_concat(d, p4, ascii_de(a3), r6);
    let p5 = p4 + a3.len();
    let r7 = ascii_de(a4) + (decimal(c.total_itens) + (ascii_de(a5) + (decimal(c.total_anexos) + (
    ascii_de(a6) + (codifica_texto_bytes(c.hash_banco) + (ascii_de(a7) + (codifica_pares(c.hashes)
        + seq![125u8])))))));
    lema_comeca_com_concat(d, p5, codifica_texto_bytes(c.data), r7);
    lema_analisa_texto_de_codificado(d, p5, c.data);
    let p6 = p5 + codifica_texto_bytes(c.data).len();
    let r8 = decimal(c.total_itens) + (ascii_de(a5) + (decimal(c.total_anexos) + (ascii_de(a6) + (
    codifica_texto_bytes(c.hash_banco) + (ascii_de(a7) + (codifica_pares(c.hashes)
        + seq![125u8]))))));
    lema_comeca_com_concat(d, p6, ascii_de(a4), r8);
    let p7 = p6 + a4.len();
    let r9 = ascii_de(a5) + (decimal(c.total_anexos) + (ascii_de(a6) + (codifica_texto_bytes(
        c.hash_banco,
    ) + (ascii_de(a7) + (codifica_pares(c.hashes) + seq![125u8])))));
    lema_comeca_com_concat(d, p7, decimal(c.total_itens), r9);
    assert(d[p7 + decimal(c.total_itens).len()] == 44) by {
        assert(ascii_de(a5)[0] == 44);
        let o = p7 + decimal(c.total_itens).len();
        assert(d.subrange(o, o + ascii_de(a5).len() as int)[0] == d[o]);
    }
    lema_analisa_numero_de_decimal(d, p7, c.total_itens);
    let p8 = p7 + decimal(c.total_itens).len();
    assert(p8 + r9.len() == d.len());
    lema_manifesto_cru_resto_ida(d, p8, c);
}

/// A metade final da escrita canônica, de `total_anexos` em diante, é lida de
/// volta sem perda.
#[verifier::rlimit(100)]
#[verifier::spinoff_prover]
proof fn lema_manifesto_cru_resto_ida(d: Seq<u8>, p8: int, c: ManifestoCru)
    requires
        0 <= c.total_anexos <= i64::MAX,
        comeca_com(
            d,
            p8,
            ascii_de(",\"total_anexos\":"@) + (decimal(c.total_anexos) + (ascii_de(
                ",\"hash_banco\":\""@,
            ) + (codifica_texto_bytes(c.hash_banco) + (ascii_de(",\"hashes_anexos\":{"@) + (
            codifica_pares(c.hashes) + seq![125u8]))))),
        ),
        p8 + (ascii_de(",\"total_anexos\":"@) + (decimal(c.total_anexos) + (ascii_de(
            ",\"hash_banco\":\""@,
        ) + (codifica_texto_bytes(c.hash_banco) + (ascii_de(",\"hashes_anexos\":{"@) + (
        codifica_pares(c.hashes) + seq![125u8])))))).len() == d.len(),
    ensures
        analisa_manifesto_cru_resto(d, p8, c.versao_app, c.versao_schema, c.data, c.total_itens)
            == Some(c),
{
    let a5 = ",\"total_anexos\":"@;
    let a6 = ",\"hash_banco\":\""@;
    let a7 = ",\"hashes_anexos\":{"@;
    reveal_strlit(",\"total_anexos\":");
    reveal_strlit(",\"hash_banco\":\"");
    reveal_strlit(",\"hashes_anexos\":{");
    let r10 = decimal(c.total_anexos) + (ascii_de(a6) + (codifica_texto_bytes(c.hash_banco) + (
    ascii_de(a7) + (codifica_pares(c.hashes) + seq![125u8]))));
    lema_comeca_com_concat(d, p8, ascii_de(a5), r10);
    let p9 = p8 + a5.len();
    let r11 = ascii_de(a6) + (codifica_texto_bytes(c.hash_banco) + (ascii_de(a7) + (codifica_pares(
        c.hashes,
    ) + seq![125u8])));
    lema_comeca_com_concat(d, p9, decimal(c.total_anexos), r11);
    assert(d[p9 + decimal(c.total_anexos).len()] == 44) by {
        assert(ascii_de(a6)[0] == 44);
        let o = p9 + decimal(c.total_anexos).len();
        assert(d.subrange(o, o + ascii_de(a6).len() as int)[0] == d[o]);
    }
    lema_analisa_numero_de_decimal(d, p9, c.total_anexos);
    let p10 = p9 + decimal(c.total_anexos).len();
    let r12 = codifica_texto_bytes(c.hash_banco) + (ascii_de(a7) + (codifica_pares(c.hashes)
        + seq![125u8]));
    lema_comeca_com_concat(d, p10, ascii_de(a6), r12);
    let p11 = p10 + a6.len();
    let r13 = ascii_de(a7) + (codifica_pares(c.hashes) + seq![125u8]);
    lema_comeca_com_concat(d, p11, codifica_texto_bytes(c.hash_banco), r13);
    lema_analisa_texto_de_codificado(d, p11, c.hash_banco);
    let p12 = p11 + codifica_texto_bytes(c.hash_banco).len();
    let r14 = codifica_pares(c.hashes) + seq![125u8];
    lema_comeca_com_concat(d, p12, ascii_de(a7), r14);
    let p13 = p12 + a7.len();
    lema_comeca_com_concat(d, p13, codifica_pares(c.hashes), seq![125u8]);
    lema_analisa_pares_de_codificado(d, p13, c.hashes);
    let p14 = p13 + codifica_pares(c.hashes).len();
    assert(d[p14] == 125) by {
        assert(d.subrange(p14, p14 + 1)[0] == d[p14]);
    }
    assert(p14 + 1 == d.len());
}

/// Um manifesto bem formado, escrito e lido de volta, é o mesmo manifesto.
/// Este é o alicerce da volta completa de um backup: o manifesto gravado num
/// arquivo é recuperado sem perda na restauração.
#[verifier::rlimit(100)]
#[verifier::spinoff_prover]
pub proof fn lema_manifesto_ida_e_volta(m: ManifestoVista)
    requires
        manifesto_bem_formado(m),
    ensures
        analisa_manifesto(codifica_manifesto(m)) == Some(m),
{
    broadcast use vstd::utf8::encode_utf8_valid_utf8;
    broadcast use vstd::utf8::encode_utf8_decode_utf8;

    let c = bytes_do_manifesto(m);
    lema_manifesto_cru_ida_e_volta(c);
    assert forall|i: int|
        0 <= i < c.hashes.len() implies valid_utf8((#[trigger] c.hashes[i]).0) && valid_utf8(
        c.hashes[i].1,
    ) by {
        assert(c.hashes[i] == (
            encode_utf8(m.hashes_anexos[i].0),
            encode_utf8(m.hashes_anexos[i].1),
        ));
    }
    let m2 = manifesto_de_cru(c)->Some_0;
    assert(m2.hashes_anexos =~= m.hashes_anexos) by {
        assert forall|i: int|
            0 <= i < m.hashes_anexos.len() implies #[trigger] m2.hashes_anexos[i]
            == m.hashes_anexos[i] by {
            assert(c.hashes[i] == (
                encode_utf8(m.hashes_anexos[i].0),
                encode_utf8(m.hashes_anexos[i].1),
            ));
            assert(m2.hashes_anexos[i] == (decode_utf8(c.hashes[i].0), decode_utf8(
                c.hashes[i].1,
            )));
        }
    }
    assert(m2 == m);
}

// =============================================================================
// Escrita executável
// =============================================================================

/// Os bytes de cada par chave/valor de uma lista executável.
pub open spec fn cru_de_pares(s: Seq<(String, String)>) -> Seq<(Seq<u8>, Seq<u8>)> {
    s.map_values(|p: (String, String)| (encode_utf8(p.0@), encode_utf8(p.1@)))
}

/// Acrescenta os pares a partir do índice `i`, separados por vírgula e
/// fechados com `}`.
#[verifier::rlimit(100)]
#[verifier::spinoff_prover]
fn poe_pares(v: &mut Vec<u8>, pares: &Vec<(String, String)>, i: usize)
    requires
        i <= pares@.len(),
    ensures
        final(v)@ == old(v)@ + codifica_pares(cru_de_pares(pares@.skip(i as int))),
    decreases pares@.len() - i,
{
    let ghost su = cru_de_pares(pares@.skip(i as int));
    if i == pares.len() {
        v.push(125);
        proof {
            assert(pares@.skip(i as int) =~= Seq::<(String, String)>::empty());
            assert(su =~= Seq::<(Seq<u8>, Seq<u8>)>::empty());
            assert(v@ =~= old(v)@ + codifica_pares(su));
        }
    } else {
        v.push(34);
        poe_texto_json(v, pares[i].0.as_str());
        v.push(58);
        v.push(34);
        poe_texto_json(v, pares[i].1.as_str());
        if i + 1 < pares.len() {
            v.push(44);
            poe_pares(v, pares, i + 1);
        } else {
            v.push(125);
        }
        proof {
            assert(su[0] == (encode_utf8(pares@[i as int].0@), encode_utf8(pares@[i as int].1@)));
            assert(su.drop_first() =~= cru_de_pares(pares@.skip(i + 1))) by {
                assert(pares@.skip(i as int).drop_first() =~= pares@.skip(i + 1));
            }
            assert(v@ =~= old(v)@ + codifica_pares(su));
        }
    }
}

/// Escreve um manifesto em sua forma canônica, os bytes de `manifesto.json`.
#[verifier::rlimit(100)]
#[verifier::spinoff_prover]
pub fn codificar_manifesto(m: &ManifestoBackup) -> (r: Vec<u8>)
    requires
        manifesto_bem_formado(m@),
    ensures
        r@ == codifica_manifesto(m@),
{
    let mut v: Vec<u8> = Vec::new();
    poe_literal(&mut v, "{\"versao_app\":\"");
    poe_texto_json(&mut v, m.versao_app.as_str());
    poe_literal(&mut v, ",\"versao_schema\":");
    poe_decimal(&mut v, m.versao_schema as u64);
    poe_literal(&mut v, ",\"data\":\"");
    poe_texto_json(&mut v, m.data.as_str());
    poe_literal(&mut v, ",\"total_itens\":");
    poe_decimal(&mut v, m.total_itens as u64);
    poe_literal(&mut v, ",\"total_anexos\":");
    poe_decimal(&mut v, m.total_anexos as u64);
    poe_literal(&mut v, ",\"hash_banco\":\"");
    poe_texto_json(&mut v, m.hash_banco.as_str());
    poe_literal(&mut v, ",\"hashes_anexos\":{");
    poe_pares(&mut v, &m.hashes_anexos, 0);
    v.push(125);
    proof {
        let c = bytes_do_manifesto(m@);
        assert(m.hashes_anexos@.skip(0) =~= m.hashes_anexos@);
        assert(c.hashes =~= cru_de_pares(m.hashes_anexos@));
        assert(v@ =~= codifica_manifesto_cru(c));
    }
    v
}

// =============================================================================
// Leitura executável
// =============================================================================

/// Lê os pares do objeto de resumos a partir de `pos`, ainda em bytes.
#[verifier::rlimit(100)]
#[verifier::spinoff_prover]
fn analisar_pares(d: &Vec<u8>, pos: usize) -> (r: Option<(Vec<(Vec<u8>, Vec<u8>)>, usize)>)
    ensures
        r is Some <==> analisa_pares(d@, pos as int) is Some,
        r is Some ==> {
            let (s, fim) = analisa_pares(d@, pos as int)->Some_0;
            r->Some_0.0@.map_values(|p: (Vec<u8>, Vec<u8>)| (p.0@, p.1@)) == s && r->Some_0.1
                as int == fim
        },
    decreases d@.len() - pos,
{
    if pos >= d.len() {
        return None;
    }
    if d[pos] == 125 {
        let vazio: Vec<(Vec<u8>, Vec<u8>)> = Vec::new();
        proof {
            assert(vazio@.map_values(|p: (Vec<u8>, Vec<u8>)| (p.0@, p.1@)) =~= Seq::<
                (Seq<u8>, Seq<u8>),
            >::empty());
        }
        return Some((vazio, pos + 1));
    }
    if d[pos] != 34 {
        return None;
    }
    let (chave, p1) = match analisar_texto(d, pos + 1) {
        Some(x) => x,
        None => {
            return None;
        },
    };
    proof {
        lema_analisa_texto_limites(d@, pos + 1);
    }
    if !(d.len() - p1 > 1 && d[p1] == 58 && d[p1 + 1] == 34) {
        return None;
    }
    let (valor, p2) = match analisar_texto(d, p1 + 2) {
        Some(x) => x,
        None => {
            return None;
        },
    };
    proof {
        lema_analisa_texto_limites(d@, p1 + 2);
    }
    if p2 < d.len() && d[p2] == 44 {
        match analisar_pares(d, p2 + 1) {
            Some((mut resto, p3)) => {
                resto.insert(0, (chave, valor));
                proof {
                    let f = |p: (Vec<u8>, Vec<u8>)| (p.0@, p.1@);
                    let (s, fim) = analisa_pares(d@, pos as int)->Some_0;
                    assert(resto@.map_values(f) =~= s);
                }
                Some((resto, p3))
            },
            None => None,
        }
    } else if p2 < d.len() && d[p2] == 125 {
        let mut um: Vec<(Vec<u8>, Vec<u8>)> = Vec::new();
        um.push((chave, valor));
        proof {
            let f = |p: (Vec<u8>, Vec<u8>)| (p.0@, p.1@);
            let (s, fim) = analisa_pares(d@, pos as int)->Some_0;
            assert(um@.map_values(f) =~= s);
        }
        Some((um, p2 + 1))
    } else {
        None
    }
}

/// Lê um manifesto dos bytes de `manifesto.json`. Devolve `Formato` se os
/// bytes não são a escrita canônica inteira de um manifesto.
#[verifier::rlimit(50)]
#[verifier::spinoff_prover]
pub fn decodificar_manifesto(d: &Vec<u8>) -> (r: Result<ManifestoBackup, ErroBackup>)
    ensures
        r is Ok <==> analisa_manifesto(d@) is Some,
        r is Ok ==> r->Ok_0@ == analisa_manifesto(d@)->Some_0,
        r is Err ==> r->Err_0 == ErroBackup::Formato,
{
    let p1 = match casar_literal(d, 0, "{\"versao_app\":\"") {
        Some(p) => p,
        None => {
            return Err(ErroBackup::Formato);
        },
    };
    let (va_bytes, p2) = match analisar_texto(d, p1) {
        Some(x) => x,
        None => {
            return Err(ErroBackup::Formato);
        },
    };
    proof {
        lema_analisa_texto_limites(d@, p1 as int);
    }
    let p3 = match casar_literal(d, p2, ",\"versao_schema\":") {
        Some(p) => p,
        None => {
            return Err(ErroBackup::Formato);
        },
    };
    let (versao_schema, p4) = match analisar_numero(d, p3, i32::MAX as u64) {
        Some(x) => x,
        None => {
            return Err(ErroBackup::Formato);
        },
    };
    let p5 = match casar_literal(d, p4, ",\"data\":\"") {
        Some(p) => p,
        None => {
            return Err(ErroBackup::Formato);
        },
    };
    let (data_bytes, p6) = match analisar_texto(d, p5) {
        Some(x) => x,
        None => {
            return Err(ErroBackup::Formato);
        },
    };
    proof {
        lema_analisa_texto_limites(d@, p5 as int);
    }
    let p7 = match casar_literal(d, p6, ",\"total_itens\":") {
        Some(p) => p,
        None => {
            return Err(ErroBackup::Formato);
        },
    };
    let (total_itens, p8) = match analisar_numero(d, p7, i64::MAX as u64) {
        Some(x) => x,
        None => {
            return Err(ErroBackup::Formato);
        },
    };
    let p9 = match casar_literal(d, p8, ",\"total_anexos\":") {
        Some(p) => p,
        None => {
            return Err(ErroBackup::Formato);
        },
    };
    let (total_anexos, p10) = match analisar_numero(d, p9, i64::MAX as u64) {
        Some(x) => x,
        None => {
            return Err(ErroBackup::Formato);
        },
    };
    let p11 = match casar_literal(d, p10, ",\"hash_banco\":\"") {
        Some(p) => p,
        None => {
            return Err(ErroBackup::Formato);
        },
    };
    let (hash_bytes, p12) = match analisar_texto(d, p11) {
        Some(x) => x,
        None => {
            return Err(ErroBackup::Formato);
        },
    };
    proof {
        lema_analisa_texto_limites(d@, p11 as int);
    }
    let p13 = match casar_literal(d, p12, ",\"hashes_anexos\":{") {
        Some(p) => p,
        None => {
            return Err(ErroBackup::Formato);
        },
    };
    let (pares, p14) = match analisar_pares(d, p13) {
        Some(x) => x,
        None => {
            return Err(ErroBackup::Formato);
        },
    };
    proof {
        reveal_strlit("}");
        assert(ascii_de("}"@) =~= seq![125u8]);
    }
    let p15 = match casar_literal(d, p14, "}") {
        Some(p) => p,
        None => {
            proof {
                if p14 < d@.len() && d@[p14 as int] == 125 {
                    assert(d@.subrange(p14 as int, p14 + 1) =~= seq![125u8]);
                }
                assert(analisa_manifesto_cru(d@) is None);
            }
            return Err(ErroBackup::Formato);
        },
    };
    if p15 != d.len() {
        proof {
            assert(analisa_manifesto_cru(d@) is None);
        }
        return Err(ErroBackup::Formato);
    }
    proof {
        assert(d@.subrange(p14 as int, p14 + 1)[0] == d@[p14 as int]);
        assert(analisa_manifesto_cru(d@) is Some);
    }
    let ghost cru = analisa_manifesto_cru(d@)->Some_0;
    let versao_app = match bytes_para_texto(&va_bytes) {
        Some(s) => s,
        None => {
            return Err(ErroBackup::Formato);
        },
    };
    let data = match bytes_para_texto(&data_bytes) {
        Some(s) => s,
        None => {
            return Err(ErroBackup::Formato);
        },
    };
    let hash_banco = match bytes_para_texto(&hash_bytes) {
        Some(s) => s,
        None => {
            return Err(ErroBackup::Formato);
        },
    };
    let mut hashes_anexos: Vec<(String, String)> = Vec::new();
    let mut i: usize = 0;
    while i < pares.len()
        invariant
            i <= pares@.len(),
            cru == analisa_manifesto_cru(d@)->Some_0,
            analisa_manifesto_cru(d@) is Some,
            pares@.map_values(|p: (Vec<u8>, Vec<u8>)| (p.0@, p.1@)) == cru.hashes,
            hashes_anexos@.len() == i,
            forall|j: int|
                0 <= j < i ==> valid_utf8((#[trigger] cru.hashes[j]).0) && valid_utf8(
                    cru.hashes[j].1,
                ),
            forall|j: int|
                0 <= j < i ==> (#[trigger] hashes_anexos@[j]).0@ == decode_utf8(cru.hashes[j].0)
                    && hashes_anexos@[j].1@ == decode_utf8(cru.hashes[j].1),
        decreases pares@.len() - i,
    {
        proof {
            assert(cru.hashes[i as int] == (pares@[i as int].0@, pares@[i as int].1@));
        }
        let chave = match bytes_para_texto(&pares[i].0) {
            Some(s) => s,
            None => {
                return Err(ErroBackup::Formato);
            },
        };
        let valor = match bytes_para_texto(&pares[i].1) {
            Some(s) => s,
            None => {
                return Err(ErroBackup::Formato);
            },
        };
        hashes_anexos.push((chave, valor));
        i += 1;
    }
    let manifesto = ManifestoBackup {
        versao_app,
        versao_schema: versao_schema as i32,
        data,
        total_itens: total_itens as i64,
        total_anexos: total_anexos as i64,
        hash_banco,
        hashes_anexos,
    };
    proof {
        let esperado = analisa_manifesto(d@)->Some_0;
        assert forall|j: int|
            0 <= j < cru.hashes.len() implies #[trigger] manifesto@.hashes_anexos[j]
            == esperado.hashes_anexos[j] by {
            assert(manifesto@.hashes_anexos[j] == (hashes_anexos@[j].0@, hashes_anexos@[j].1@));
            assert(esperado.hashes_anexos[j] == (decode_utf8(cru.hashes[j].0), decode_utf8(
                cru.hashes[j].1,
            )));
        }
        assert(manifesto@.hashes_anexos =~= esperado.hashes_anexos);
        assert(manifesto@ == esperado);
    }
    Ok(manifesto)
}

} // verus!
