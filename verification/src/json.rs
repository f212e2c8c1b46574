//! Primitivas do formato textual dos registros de um arquivo `.vaultbackup`
//! (`manifesto.json` e `dados.json`): escape de textos, números decimais e os
//! analisadores estritos da forma canônica, com as provas de ida e volta.
//!
//! O formato é JSON canônico produzido por esta biblioteca: objetos com as
//! chaves em ordem fixa, sem espaços, textos com escape de aspas, contrabarra
//! e bytes de controle (`\u00xy`, minúsculo), números decimais sem sinal.

use vstd::prelude::*;

verus! {

// =============================================================================
// Dígitos
// =============================================================================

/// Um byte de dígito decimal ASCII.
pub open spec fn eh_digito(b: u8) -> bool {
    48 <= b <= 57
}

/// O dígito hexadecimal minúsculo de um valor entre 0 e 15.
pub open spec fn digito_hex(n: u8) -> u8 {
    if n < 10 {
        (48 + n) as u8
    } else {
        (87 + n) as u8
    }
}

/// Um byte de dígito hexadecimal minúsculo.
pub open spec fn eh_digito_hex_baixo(b: u8) -> bool {
    (48 <= b <= 57) || (97 <= b <= 102)
}

/// O valor de um dígito hexadecimal minúsculo.
pub open spec fn valor_hex(b: u8) -> u8 {
    if b <= 57 {
        (b - 48) as u8
    } else {
        (b - 87) as u8
    }
}

/// `valor_hex` desfaz `digito_hex`.
pub proof fn lema_valor_de_digito_hex(n: u8)
    requires
        n < 16,
    ensures
        eh_digito_hex_baixo(digito_hex(n)),
        valor_hex(digito_hex(n)) == n,
{
}

// =============================================================================
// Escape de textos
// =============================================================================

/// O escape de um byte dentro de um texto entre aspas: aspas e contrabarra
/// ganham contrabarra; bytes de controle viram `\u00xy`; o resto passa como
/// está.
pub open spec fn escapa_byte(b: u8) -> Seq<u8> {
    if b == 34 {
        seq![92u8, 34u8]
    } else if b == 92 {
        seq![92u8, 92u8]
    } else if b < 32 {
        seq![92u8, 117u8, 48u8, 48u8, digito_hex(b / 16), digito_hex(b % 16)]
    } else {
        seq![b]
    }
}

/// O escape de uma sequência de bytes.
pub open spec fn escapa(s: Seq<u8>) -> Seq<u8>
    decreases s.len(),
{
    if s.len() == 0 {
        seq![]
    } else {
        escapa_byte(s.first()) + escapa(s.drop_first())
    }
}

/// O escape distribui sobre a concatenação.
pub proof fn lema_escapa_concat(a: Seq<u8>, b: Seq<u8>)
    ensures
        escapa(a + b) == escapa(a) + escapa(b),
    decreases a.len(),
{
    if a.len() == 0 {
        assert(a + b =~= b);
        assert(escapa(a) + escapa(b) =~= escapa(b));
    } else {
        assert((a + b).first() == a.first());
        assert((a + b).drop_first() =~= a.drop_first() + b);
        lema_escapa_concat(a.drop_first(), b);
        assert(escapa(a + b) =~= escapa(a) + escapa(b));
    }
}

/// O escape de um byte só.
pub proof fn lema_escapa_um(b: u8)
    ensures
        escapa(seq![b]) == escapa_byte(b),
{
    assert(seq![b].first() == b);
    assert(seq![b].drop_first() =~= Seq::<u8>::empty());
    assert(escapa(Seq::<u8>::empty()) == Seq::<u8>::empty());
    assert(escapa(seq![b]) =~= escapa_byte(b));
}

/// Escapa os bytes de um texto para gravação entre aspas.
pub fn escapar(dados: &[u8]) -> (r: Vec<u8>)
    ensures
        r@ == escapa(dados@),
{
    let mut r: Vec<u8> = Vec::new();
    let mut i: usize = 0;
    while i < dados.len()
        invariant
            i <= dados@.len(),
            r@ == escapa(dados@.take(i as int)),
        decreases dados@.len() - i,
    {
        let b = dados[i];
        proof {
            assert(dados@.take(i + 1) =~= dados@.take(i as int) + seq![dados@[i as int]]);
            lema_escapa_concat(dados@.take(i as int), seq![dados@[i as int]]);
            lema_escapa_um(dados@[i as int]);
        }
        if b == 34 {
            r.push(92);
            r.push(34);
        } else if b == 92 {
            r.push(92);
            r.push(92);
        } else if b < 32 {
            r.push(92);
            r.push(117);
            r.push(48);
            r.push(48);
            let alto = b / 16;
            let baixo = b % 16;
            r.push(if alto < 10 { 48 + alto } else { 87 + alto });
            r.push(if baixo < 10 { 48 + baixo } else { 87 + baixo });
        } else {
            r.push(b);
        }
        proof {
            assert(r@ =~= escapa(dados@.take(i + 1)));
        }
        i += 1;
    }
    proof {
        assert(dados@.take(dados@.len() as int) =~= dados@);
    }
    r
}

// =============================================================================
// Analisador de textos entre aspas
// =============================================================================

/// Lê o conteúdo de um texto a partir da posição logo após a aspa de
/// abertura, até a aspa de fechamento, desfazendo os escapes canônicos.
/// Devolve os bytes do texto e a posição logo após a aspa de fechamento.
pub open spec fn analisa_texto(d: Seq<u8>, pos: int) -> Option<(Seq<u8>, int)>
    decreases d.len() - pos,
{
    if pos < 0 || pos >= d.len() {
        None
    } else if d[pos] == 34 {
        Some((seq![], pos + 1))
    } else if d[pos] == 92 {
        if pos + 1 < d.len() && (d[pos + 1] == 34 || d[pos + 1] == 92) {
            match analisa_texto(d, pos + 2) {
                Some((s, fim)) => Some((seq![d[pos + 1]] + s, fim)),
                None => None,
            }
        } else if pos + 5 < d.len() && d[pos + 1] == 117 && d[pos + 2] == 48 && d[pos + 3] == 48
            && eh_digito_hex_baixo(d[pos + 4]) && eh_digito_hex_baixo(d[pos + 5]) && valor_hex(
            d[pos + 4],
        ) * 16 + valor_hex(d[pos + 5]) < 32 {
            match analisa_texto(d, pos + 6) {
                Some((s, fim)) => Some(
                    (seq![(valor_hex(d[pos + 4]) * 16 + valor_hex(d[pos + 5])) as u8] + s, fim),
                ),
                None => None,
            }
        } else {
            None
        }
    } else if d[pos] < 32 {
        None
    } else {
        match analisa_texto(d, pos + 1) {
            Some((s, fim)) => Some((seq![d[pos]] + s, fim)),
            None => None,
        }
    }
}

/// Um texto analisado termina depois de onde começou e dentro dos dados.
pub proof fn lema_analisa_texto_limites(d: Seq<u8>, pos: int)
    requires
        analisa_texto(d, pos) is Some,
    ensures
        pos < analisa_texto(d, pos)->Some_0.1 <= d.len(),
    decreases d.len() - pos,
{
    if d[pos] == 34 {
    } else if d[pos] == 92 {
        if pos + 1 < d.len() && (d[pos + 1] == 34 || d[pos + 1] == 92) {
            lema_analisa_texto_limites(d, pos + 2);
        } else {
            lema_analisa_texto_limites(d, pos + 6);
        }
    } else {
        lema_analisa_texto_limites(d, pos + 1);
    }
}

/// Sobre dados que trazem um texto escapado seguido da aspa de fechamento,
/// o analisador devolve exatamente o texto original.
pub proof fn lema_analisa_texto_de_escapado(d: Seq<u8>, pos: int, s: Seq<u8>)
    requires
        0 <= pos,
        pos + escapa(s).len() + 1 <= d.len(),
        d.subrange(pos, pos + escapa(s).len()) == escapa(s),
        d[pos + escapa(s).len()] == 34,
    ensures
        analisa_texto(d, pos) == Some((s, pos + escapa(s).len() + 1)),
    decreases s.len(),
{
    if s.len() == 0 {
        assert(escapa(s).len() == 0);
        assert(d[pos] == 34);
    } else {
        let b = s.first();
        let resto = s.drop_first();
        let eb = escapa_byte(b);
        let k = eb.len();
        let es = escapa(s);
        let le = es.len();
        assert(es == eb + escapa(resto));
        assert forall|j: int| 0 <= j < le implies d[pos + j] == es[j] by {
            assert(d.subrange(pos, pos + le)[j] == d[pos + j]);
        }
        assert forall|j: int| 0 <= j < k implies d[pos + j] == eb[j] by {
            assert(d[pos + j] == es[j]);
            assert(es[j] == eb[j]);
        }
        assert(d.subrange(pos + k, pos + le) =~= escapa(resto)) by {
            assert forall|j: int|
                0 <= j < le - k implies d.subrange(pos + k, pos + le)[j] == escapa(resto)[j] by {
                assert(d.subrange(pos + k, pos + le)[j] == d[pos + k + j]);
                assert(d[pos + k + j] == es[k + j]);
                assert(es[k + j] == escapa(resto)[j]);
            }
        }
        assert(d[pos + k + escapa(resto).len()] == 34);
        lema_analisa_texto_de_escapado(d, pos + k, resto);
        assert(seq![b] + resto =~= s);
        if b == 34 {
            assert(d[pos] == 92 && d[pos + 1] == 34);
        } else if b == 92 {
            assert(d[pos] == 92 && d[pos + 1] == 92);
        } else if b < 32 {
            assert(d[pos] == 92 && d[pos + 1] == 117 && d[pos + 2] == 48 && d[pos + 3] == 48);
            assert(d[pos + 4] == digito_hex(b / 16) && d[pos + 5] == digito_hex(b % 16));
            lema_valor_de_digito_hex(b / 16);
            lema_valor_de_digito_hex(b % 16);
            assert(valor_hex(d[pos + 4]) * 16 + valor_hex(d[pos + 5]) == b) by {
                assert(b / 16 * 16 + b % 16 == b) by {
                    vstd::arithmetic::div_mod::lemma_fundamental_div_mod(b as int, 16);
                }
            }
        } else {
            assert(d[pos] == b);
        }
    }
}

/// Lê o conteúdo de um texto entre aspas a partir de `pos` (logo após a aspa
/// de abertura), devolvendo os bytes e a posição após a aspa de fechamento.
pub fn analisar_texto(d: &Vec<u8>, pos: usize) -> (r: Option<(Vec<u8>, usize)>)
    ensures
        r is Some <==> analisa_texto(d@, pos as int) is Some,
        r is Some ==> {
            let (s, fim) = analisa_texto(d@, pos as int)->Some_0;
            r->Some_0.0@ == s && r->Some_0.1 as int == fim
        },
    decreases d@.len() - pos,
{
    if pos >= d.len() {
        return None;
    }
    let b = d[pos];
    if b == 34 {
        Some((Vec::new(), pos + 1))
    } else if b == 92 {
        if d.len() - pos > 1 && (d[pos + 1] == 34 || d[pos + 1] == 92) {
            match analisar_texto(d, pos + 2) {
                Some((mut s, fim)) => {
                    s.insert(0, d[pos + 1]);
                    Some((s, fim))
                },
                None => None,
            }
        } else if d.len() - pos > 5 && d[pos + 1] == 117 && d[pos + 2] == 48 && d[pos + 3] == 48 {
            let alto = d[pos + 4];
            let baixo = d[pos + 5];
            let hex_ok = ((48 <= alto && alto <= 57) || (97 <= alto && alto <= 102)) && ((48
                <= baixo && baixo <= 57) || (97 <= baixo && baixo <= 102));
            if !hex_ok {
                return None;
            }
            let valor_alto = if alto <= 57 { alto - 48 } else { alto - 87 };
            let valor_baixo = if baixo <= 57 { baixo - 48 } else { baixo - 87 };
            if valor_alto * 16 + valor_baixo >= 32 {
                return None;
            }
            match analisar_texto(d, pos + 6) {
                Some((mut s, fim)) => {
                    s.insert(0, valor_alto * 16 + valor_baixo);
                    Some((s, fim))
                },
                None => None,
            }
        } else {
            None
        }
    } else if b < 32 {
        None
    } else {
        match analisar_texto(d, pos + 1) {
            Some((mut s, fim)) => {
                s.insert(0, b);
                Some((s, fim))
            },
            None => None,
        }
    }
}

// =============================================================================
// Números decimais
// =============================================================================

/// A escrita decimal canônica de um inteiro não negativo.
pub open spec fn decimal(n: int) -> Seq<u8>
    decreases n,
{
    if n < 10 {
        seq![(48 + n) as u8]
    } else {
        decimal(n / 10) + seq![(48 + n % 10) as u8]
    }
}

/// Toda posição de uma escrita decimal é um dígito.
pub proof fn lema_decimal_digitos(n: int)
    requires
        n >= 0,
    ensures
        escapa(decimal(n)) == decimal(n),
        decimal(n).len() >= 1,
        forall|j: int| 0 <= j < decimal(n).len() ==> eh_digito(#[trigger] decimal(n)[j]),
    decreases n,
{
    if n < 10 {
        assert(decimal(n) =~= seq![(48 + n) as u8]);
        lema_escapa_um((48 + n) as u8);
    } else {
        lema_decimal_digitos(n / 10);
        lema_escapa_um((48 + n % 10) as u8);
        lema_escapa_concat(decimal(n / 10), seq![(48 + n % 10) as u8]);
    }
}

/// Converte um número em sua escrita decimal.
pub fn u64_para_decimal(n: u64) -> (r: Vec<u8>)
    ensures
        r@ == decimal(n as int),
    decreases n,
{
    if n < 10 {
        let mut r: Vec<u8> = Vec::new();
        r.push(48 + (n as u8));
        proof {
            assert(r@ =~= decimal(n as int));
        }
        r
    } else {
        let mut r = u64_para_decimal(n / 10);
        r.push(48 + ((n % 10) as u8));
        proof {
            assert(r@ =~= decimal(n as int));
        }
        r
    }
}

/// A primeira posição a partir de `pos` que não é dígito.
pub open spec fn fim_digitos(d: Seq<u8>, pos: int) -> int
    decreases d.len() - pos,
{
    if 0 <= pos < d.len() && eh_digito(d[pos]) {
        fim_digitos(d, pos + 1)
    } else {
        pos
    }
}

/// O valor do trecho de dígitos entre `pos` e `fim`.
pub open spec fn valor_digitos(d: Seq<u8>, pos: int, fim: int) -> int
    decreases fim - pos,
{
    if fim <= pos {
        0
    } else {
        valor_digitos(d, pos, fim - 1) * 10 + (d[fim - 1] - 48)
    }
}

/// Lê um número decimal a partir de `pos`: ao menos um dígito, tomados
/// gulosamente. Devolve o valor e a posição após o último dígito.
pub open spec fn analisa_numero(d: Seq<u8>, pos: int) -> Option<(int, int)> {
    if 0 <= pos < d.len() && eh_digito(d[pos]) {
        Some((valor_digitos(d, pos, fim_digitos(d, pos)), fim_digitos(d, pos)))
    } else {
        None
    }
}

/// Limites do fim dos dígitos.
pub proof fn lema_fim_digitos_limites(d: Seq<u8>, pos: int)
    requires
        0 <= pos <= d.len(),
    ensures
        pos <= fim_digitos(d, pos) <= d.len(),
        forall|j: int| pos <= j < fim_digitos(d, pos) ==> eh_digito(#[trigger] d[j]),
        fim_digitos(d, pos) < d.len() ==> !eh_digito(d[fim_digitos(d, pos)]),
    decreases d.len() - pos,
{
    if pos < d.len() && eh_digito(d[pos]) {
        lema_fim_digitos_limites(d, pos + 1);
    }
}

/// O valor acumulado dos dígitos não é negativo e só cresce com mais dígitos.
pub proof fn lema_valor_digitos_cresce(d: Seq<u8>, pos: int, i: int, j: int)
    requires
        pos <= i <= j,
        forall|k: int| pos <= k < j ==> 0 <= #[trigger] d[k] - 48,
    ensures
        0 <= valor_digitos(d, pos, i) <= valor_digitos(d, pos, j),
    decreases j - pos, j - i,
{
    if i < j {
        lema_valor_digitos_cresce(d, pos, i, j - 1);
        assert(valor_digitos(d, pos, j) == valor_digitos(d, pos, j - 1) * 10 + (d[j - 1] - 48));
    } else {
        if pos < i {
            lema_valor_digitos_cresce(d, pos, i - 1, i - 1);
        }
    }
}

/// Sobre dados que trazem a escrita decimal de `n` seguida de algo que não é
/// dígito (ou do fim dos dados), o analisador devolve exatamente `n`.
pub proof fn lema_analisa_numero_de_decimal(d: Seq<u8>, pos: int, n: int)
    requires
        0 <= pos,
        n >= 0,
        pos + decimal(n).len() <= d.len(),
        d.subrange(pos, pos + decimal(n).len()) == decimal(n),
        pos + decimal(n).len() < d.len() ==> !eh_digito(d[pos + decimal(n).len()]),
    ensures
        analisa_numero(d, pos) == Some((n, pos + decimal(n).len())),
    decreases n,
{
    let ld = decimal(n).len();
    lema_decimal_digitos(n);
    assert forall|j: int| 0 <= j < ld implies d[pos + j] == decimal(n)[j] by {
        assert(d.subrange(pos, pos + ld)[j] == d[pos + j]);
    }
    assert forall|j: int| pos <= j < pos + ld implies eh_digito(#[trigger] d[j]) by {
        assert(d[j] == decimal(n)[j - pos]);
        assert(eh_digito(decimal(n)[j - pos]));
    }
    assert(fim_digitos(d, pos) == pos + ld) by {
        lema_fim_digitos_igual(d, pos, pos + ld);
    }
    lema_valor_decimal(d, pos, n);
}

/// Se todas as posições entre `pos` e `fim` são dígitos e `fim` não é, o fim
/// dos dígitos é exatamente `fim`.
proof fn lema_fim_digitos_igual(d: Seq<u8>, pos: int, fim: int)
    requires
        0 <= pos <= fim <= d.len(),
        forall|j: int| pos <= j < fim ==> eh_digito(#[trigger] d[j]),
        fim < d.len() ==> !eh_digito(d[fim]),
    ensures
        fim_digitos(d, pos) == fim,
    decreases fim - pos,
{
    if pos < fim {
        lema_fim_digitos_igual(d, pos + 1, fim);
    }
}

/// O valor lido sobre a escrita decimal de `n` é o próprio `n`.
proof fn lema_valor_decimal(d: Seq<u8>, pos: int, n: int)
    requires
        0 <= pos,
        n >= 0,
        pos + decimal(n).len() <= d.len(),
        forall|j: int| 0 <= j < decimal(n).len() ==> d[pos + j] == #[trigger] decimal(n)[j],
    ensures
        valor_digitos(d, pos, pos + decimal(n).len()) == n,
    decreases n,
{
    let ld = decimal(n).len();
    if n < 10 {
        assert(decimal(n)[0] == (48 + n) as u8);
        assert(d[pos] == (48 + n) as u8);
        assert(valor_digitos(d, pos, pos) == 0);
        assert(valor_digitos(d, pos, pos + 1) == n);
    } else {
        let lq = decimal(n / 10).len();
        lema_decimal_digitos(n / 10);
        assert(decimal(n) == decimal(n / 10) + seq![(48 + n % 10) as u8]);
        assert forall|j: int| 0 <= j < lq implies d[pos + j] == #[trigger] decimal(n / 10)[j] by {
            assert(d[pos + j] == decimal(n)[j]);
            assert(decimal(n)[j] == decimal(n / 10)[j]);
        }
        lema_valor_decimal(d, pos, n / 10);
        assert(d[pos + lq] == decimal(n)[lq as int]);
        assert(decimal(n)[lq as int] == (48 + n % 10) as u8);
        assert(valor_digitos(d, pos, pos + ld) == valor_digitos(d, pos, pos + lq) * 10 + (d[pos
            + lq] - 48));
        vstd::arithmetic::div_mod::lemma_fundamental_div_mod(n, 10);
    }
}

/// Lê um número decimal de no máximo `maximo` a partir de `pos`.
/// Falha se não há dígito em `pos` ou se o valor excede `maximo`.
pub fn analisar_numero(d: &Vec<u8>, pos: usize, maximo: u64) -> (r: Option<(u64, usize)>)
    ensures
        r is Some <==> (analisa_numero(d@, pos as int) is Some && analisa_numero(
            d@,
            pos as int,
        )->Some_0.0 <= maximo),
        r is Some ==> {
            let (v, fim) = analisa_numero(d@, pos as int)->Some_0;
            r->Some_0.0 as int == v && r->Some_0.1 as int == fim
        },
{
    if pos >= d.len() {
        return None;
    }
    if !(48 <= d[pos] && d[pos] <= 57) {
        return None;
    }
    proof {
        lema_fim_digitos_limites(d@, pos as int);
    }
    let ghost fim = fim_digitos(d@, pos as int);
    let ghost valor_total = valor_digitos(d@, pos as int, fim);
    let mut i: usize = pos;
    let mut acumulado: u64 = 0;
    proof {
        lema_valor_digitos_cresce(d@, pos as int, pos as int, fim);
    }
    while i < d.len() && 48 <= d[i] && d[i] <= 57
        invariant
            pos <= i <= d@.len(),
            i <= fim,
            fim == fim_digitos(d@, pos as int),
            valor_total == valor_digitos(d@, pos as int, fim),
            pos as int <= fim <= d@.len(),
            forall|j: int| pos <= j < fim ==> eh_digito(#[trigger] d@[j]),
            fim < d@.len() ==> !eh_digito(d@[fim]),
            fim_digitos(d@, i as int) == fim,
            acumulado as int == valor_digitos(d@, pos as int, i as int),
            acumulado <= maximo,
        decreases d@.len() - i,
    {
        let digito = d[i] - 48;
        proof {
            assert(i < fim) by {
                if i as int == fim {
                    assert(!eh_digito(d@[fim]));
                }
            }
            lema_valor_digitos_cresce(d@, pos as int, i + 1, fim);
            assert(valor_digitos(d@, pos as int, i + 1) == acumulado as int * 10 + digito);
        }
        let passo = match acumulado.checked_mul(10) {
            Some(x) => x.checked_add(digito as u64),
            None => None,
        };
        match passo {
            Some(novo) => {
                if novo > maximo {
                    proof {
                        assert(valor_total >= novo as int);
                    }
                    return None;
                }
                acumulado = novo;
            },
            None => {
                proof {
                    assert(valor_digitos(d@, pos as int, i + 1) > u64::MAX as int);
                    assert(valor_total > maximo as int);
                }
                return None;
            },
        }
        proof {
            assert(fim_digitos(d@, i as int) == fim_digitos(d@, i + 1));
        }
        i += 1;
    }
    proof {
        assert(i as int == fim) by {
            if (i as int) < fim {
                assert(eh_digito(d@[i as int]));
            }
        }
    }
    Some((acumulado, i))
}

// =============================================================================
// Literais
// =============================================================================

/// Os bytes de um texto ASCII, caractere a caractere. Os literais fixos do
/// formato são todos ASCII, e para eles este é o byte do próprio caractere.
pub open spec fn ascii_de(s: Seq<char>) -> Seq<u8> {
    s.map_values(|c: char| (c as u32) as u8)
}

/// O byte de um caractere ASCII.
fn char_para_byte(c: char) -> (b: u8)
    ensures
        b == (c as u32) as u8,
{
    #[verifier::truncate]
    ((c as u32) as u8)
}

/// Os dados trazem `lit` a partir de `pos`.
pub open spec fn comeca_com(d: Seq<u8>, pos: int, lit: Seq<u8>) -> bool {
    &&& 0 <= pos
    &&& pos + lit.len() <= d.len()
    &&& d.subrange(pos, pos + lit.len()) == lit
}

/// Trazer uma concatenação é trazer cada parte, uma após a outra.
pub proof fn lema_comeca_com_concat(d: Seq<u8>, pos: int, a: Seq<u8>, b: Seq<u8>)
    requires
        comeca_com(d, pos, a + b),
    ensures
        comeca_com(d, pos, a),
        comeca_com(d, pos + a.len(), b),
{
    let ab = a + b;
    assert forall|j: int| 0 <= j < ab.len() implies d[pos + j] == ab[j] by {
        assert(d.subrange(pos, pos + ab.len())[j] == d[pos + j]);
    }
    assert(d.subrange(pos, pos + a.len()) =~= a);
    assert(d.subrange(pos + a.len(), pos + a.len() + b.len()) =~= b) by {
        assert forall|j: int|
            0 <= j < b.len() implies d.subrange(pos + a.len(), pos + a.len() + b.len())[j]
            == b[j] by {
            assert(d[pos + a.len() + j] == ab[a.len() + j]);
        }
    }
}

/// O conteúdo de um texto entre aspas, com a aspa de fechamento.
pub open spec fn codifica_texto_bytes(s: Seq<u8>) -> Seq<u8> {
    escapa(s) + seq![34u8]
}

/// Sobre dados que trazem um texto codificado, o analisador devolve
/// exatamente o texto original.
pub proof fn lema_analisa_texto_de_codificado(d: Seq<u8>, pos: int, s: Seq<u8>)
    requires
        comeca_com(d, pos, codifica_texto_bytes(s)),
    ensures
        analisa_texto(d, pos) == Some((s, pos + codifica_texto_bytes(s).len())),
{
    lema_comeca_com_concat(d, pos, escapa(s), seq![34u8]);
    let fim_escapa = pos + escapa(s).len();
    assert(d.subrange(fim_escapa, fim_escapa + 1)[0] == d[fim_escapa]);
    assert(d[fim_escapa] == 34);
    lema_analisa_texto_de_escapado(d, pos, s);
}

/// Confere se os dados trazem os bytes do literal ASCII `lit` a partir de
/// `pos`; devolve a posição logo após o literal.
pub fn casar_literal(d: &Vec<u8>, pos: usize, lit: &str) -> (r: Option<usize>)
    ensures
        r is Some <==> comeca_com(d@, pos as int, ascii_de(lit@)),
        r is Some ==> r->Some_0 as int == pos + lit@.len(),
{
    let n = lit.unicode_len();
    let ghost alvo = ascii_de(lit@);
    if pos > d.len() || d.len() - pos < n {
        proof {
            assert(!comeca_com(d@, pos as int, alvo));
        }
        return None;
    }
    let mut i: usize = 0;
    while i < n
        invariant
            i <= n,
            n == lit@.len(),
            alvo == ascii_de(lit@),
            pos + n <= d@.len(),
            d@.len() <= usize::MAX,
            forall|j: int| 0 <= j < i ==> d@[pos + j] == alvo[j],
        decreases n - i,
    {
        if d[pos + i] != char_para_byte(lit.get_char(i)) {
            proof {
                assert(d@.subrange(pos as int, pos + alvo.len()) != alvo) by {
                    assert(d@.subrange(pos as int, pos + alvo.len())[i as int] != alvo[i as int]);
                }
            }
            return None;
        }
        i += 1;
    }
    proof {
        assert(d@.subrange(pos as int, pos + alvo.len()) =~= alvo);
    }
    Some(pos + n)
}

/// Acrescenta a escrita decimal de um número ao fim de um vetor.
pub fn poe_decimal(v: &mut Vec<u8>, n: u64)
    ensures
        final(v)@ == old(v)@ + decimal(n as int),
{
    let mut dec = u64_para_decimal(n);
    v.append(&mut dec);
}

/// Acrescenta um texto escapado e a aspa de fechamento ao fim de um vetor.
pub fn poe_texto_json(v: &mut Vec<u8>, s: &str)
    ensures
        final(v)@ == old(v)@ + codifica_texto_bytes(vstd::utf8::encode_utf8(s@)),
{
    let bytes = s.as_bytes_vec();
    let mut esc = escapar(bytes.as_slice());
    v.append(&mut esc);
    v.push(34);
    proof {
        assert(v@ =~= old(v)@ + codifica_texto_bytes(vstd::utf8::encode_utf8(s@)));
    }
}

/// Acrescenta os bytes de um literal ASCII ao fim de um vetor.
pub fn poe_literal(v: &mut Vec<u8>, lit: &str)
    ensures
        final(v)@ == old(v)@ + ascii_de(lit@),
{
    let n = lit.unicode_len();
    let mut i: usize = 0;
    while i < n
        invariant
            i <= n,
            n == lit@.len(),
            v@ == old(v)@ + ascii_de(lit@).take(i as int),
        decreases n - i,
    {
        v.push(char_para_byte(lit.get_char(i)));
        proof {
            assert(old(v)@ + ascii_de(lit@).take(i as int) + seq![ascii_de(lit@)[i as int]]
                =~= old(v)@ + ascii_de(lit@).take(i + 1));
        }
        i += 1;
    }
    proof {
        assert(ascii_de(lit@).take(n as int) =~= ascii_de(lit@));
    }
}

} // verus!
